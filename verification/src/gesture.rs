//! Gestures: ordered control points with an intent, and the edits that make a
//! new gesture out of an old one.
use crate::geometry::{
    distance_difference, distance_minus, distance_plus, distance_sum, first_index_at_least,
    first_reaching, line_path_distances, line_path_point_along, line_path_projection,
    path_distances, point_along_path, project_onto_path, Distance, Point, SPLIT_GAP,
};
use vstd::prelude::*;

verus! {

/// How many lanes a road has in each direction.
#[derive(Clone, Copy, PartialEq, Eq, Structural, Debug)]
pub struct RoadIntent {
    pub n_lanes_forward: u8,
    pub n_lanes_backward: u8,
}

/// What a zone is used for.
#[derive(Clone, Copy, PartialEq, Eq, Structural, Debug)]
pub enum LandUse {
    Residential,
    Commercial,
    Industrial,
    Agricultural,
    Recreational,
    Administrative,
}

/// What a zone prescribes.
#[derive(Clone, Copy, PartialEq, Eq, Structural, Debug)]
pub enum ZoneIntent {
    LandUse(LandUse),
    MaxHeight(u8),
    SetBack(u8),
}

/// The kind of building that stands on a lot.
#[derive(Clone, Copy, PartialEq, Eq, Structural, Debug)]
pub struct BuildingIntent {
    pub style: u8,
}

/// The kind of feature a gesture stands for, with the parameters of that kind.
#[derive(Clone, Copy, PartialEq, Eq, Structural, Debug)]
pub enum GestureIntent {
    Road(RoadIntent),
    Zone(ZoneIntent),
    Building(BuildingIntent),
}

/// A feature drawn by the user: at least one control point, and an intent.
/// A gesture is never changed in place; every edit makes a new one.
pub struct Gesture {
    points: Vec<Point>,
    intent: GestureIntent,
}

/// What a gesture is, as a mathematical value.
pub struct GestureView {
    pub points: Seq<Point>,
    pub intent: GestureIntent,
}

/// Where a gesture is cut in two: the index of the first point that goes to
/// the second half, the new last point of the first half and the new first
/// point of the second half.
#[derive(Clone, Copy, PartialEq, Eq, Structural, Debug)]
pub struct SplitPosition {
    pub index: usize,
    pub point_before: Point,
    pub point_after: Point,
}

impl GestureView {
    /// A gesture has at least one point.
    pub open spec fn wf(self) -> bool {
        self.points.len() >= 1
    }

    /// The gesture with `point` put behind its last point, or before its first.
    pub open spec fn add_point(self, point: Point, add_to_end: bool) -> GestureView {
        GestureView {
            points: if add_to_end {
                self.points.push(point)
            } else {
                seq![point] + self.points
            },
            intent: self.intent,
        }
    }

    /// The gesture with `point` put in at `index`; the points from there on
    /// move back by one.
    pub open spec fn insert_point(self, index: int, point: Point) -> GestureView {
        GestureView { points: self.points.insert(index, point), intent: self.intent }
    }

    /// The gesture with the point at `index` replaced.
    pub open spec fn move_point(self, index: int, point: Point) -> GestureView {
        GestureView { points: self.points.update(index, point), intent: self.intent }
    }

    /// The gesture with another intent and the same points.
    pub open spec fn with_intent(self, intent: GestureIntent) -> GestureView {
        GestureView { points: self.points, intent }
    }

    /// The part of the gesture before a cut: the points before `index`, then
    /// `point_before`.
    pub open spec fn first_half(self, index: int, point_before: Point) -> GestureView {
        GestureView { points: self.points.take(index).push(point_before), intent: self.intent }
    }

    /// The part of the gesture behind a cut: `point_after`, then the points
    /// from `index` on.
    pub open spec fn second_half(self, index: int, point_after: Point) -> GestureView {
        GestureView { points: seq![point_after] + self.points.skip(index), intent: self.intent }
    }

    /// Where a new control point goes, given what the path computations
    /// returned: before the first point of the path that lies at least as far
    /// along as the projection of the new point; at the end where there is no
    /// path, no projection or no such point.
    pub open spec fn insertion_index_from(
        self,
        distances: Option<Seq<Distance>>,
        along: Option<Distance>,
    ) -> int {
        match (distances, along) {
            (Some(d), Some(a)) => match first_reaching(d, a) {
                Some(i) => i,
                None => self.points.len() as int,
            },
            _ => self.points.len() as int,
        }
    }

    /// Where `point` is inserted into the gesture.
    pub open spec fn insertion_index(self, point: Point) -> int {
        self.insertion_index_from(
            line_path_distances(self.points),
            line_path_projection(self.points, point),
        )
    }

    /// The index at which a cut falls, given what the path computations
    /// returned: that of the first point of the path that lies at least as
    /// far along as the projection of the cutting point. There is none where
    /// there is no path, no projection or no such point.
    pub open spec fn split_index_from(distances: Option<Seq<Distance>>, along: Option<Distance>)
        -> Option<int> {
        match (distances, along) {
            (Some(d), Some(a)) => first_reaching(d, a),
            _ => None,
        }
    }

    /// Where the gesture is cut by `split_at`: the index as above, and the
    /// two points that lie on the path five before and five behind the
    /// projection of `split_at`.
    pub open spec fn split_position(self, split_at: Point) -> Option<SplitPosition> {
        let along = line_path_projection(self.points, split_at);
        match Self::split_index_from(line_path_distances(self.points), along) {
            Some(i) => Some(
                SplitPosition {
                    index: i as usize,
                    point_before: line_path_point_along(
                        self.points,
                        distance_difference(along->0, Distance(SPLIT_GAP)),
                    )->0,
                    point_after: line_path_point_along(
                        self.points,
                        distance_sum(along->0, Distance(SPLIT_GAP)),
                    )->0,
                },
            ),
            None => None,
        }
    }
}

impl View for Gesture {
    type V = GestureView;

    closed spec fn view(&self) -> GestureView {
        GestureView { points: self.points@, intent: self.intent }
    }
}

/// A copy of the points.
fn copy_points(points: &Vec<Point>) -> (r: Vec<Point>)
    ensures
        r@ == points@,
{
    let mut out: Vec<Point> = Vec::new();
    let mut i: usize = 0;
    while i < points.len()
        invariant
            i <= points.len(),
            out@ == points@.take(i as int),
        decreases points.len() - i,
    {
        out.push(points[i]);
        assert(points@.take(i + 1) == points@.take(i as int).push(points@[i as int]));
        i += 1;
    }
    assert(points@.take(points@.len() as int) == points@);
    out
}

impl Clone for Gesture {
    fn clone(&self) -> (r: Self)
        ensures
            r@ == self@,
    {
        proof {
            use_type_invariant(self);
        }
        Gesture { points: copy_points(&self.points), intent: self.intent }
    }
}

/// The index at which a new control point is inserted into a gesture of
/// `len` points, from the lengths of the path's points and the length at
/// which the new point projects.
pub fn insertion_index_from(len: usize, distances: &Option<Vec<Distance>>, along: Option<Distance>)
    -> (r: usize)
    ensures
        r == match (distances, along) {
            (Some(d), Some(a)) => match first_reaching(d@, a) {
                Some(i) => i,
                None => len as int,
            },
            _ => len as int,
        },
{
    match (distances, along) {
        (Some(d), Some(a)) => match first_index_at_least(d, a) {
            Some(i) => i,
            None => len,
        },
        _ => len,
    }
}

/// The index at which a cut falls, from the lengths of the path's points and
/// the length at which the cutting point projects.
pub fn split_index_from(distances: &Option<Vec<Distance>>, along: Option<Distance>) -> (r: Option<
    usize,
>)
    ensures
        match r {
            Some(i) => distances.is_some() && along.is_some() && first_reaching(
                distances->0@,
                along->0,
            ) == Some(i as int),
            None => distances.is_none() || along.is_none() || first_reaching(
                distances->0@,
                along->0,
            ).is_none(),
        },
{
    match (distances, along) {
        (Some(d), Some(a)) => first_index_at_least(d, a),
        _ => None,
    }
}

impl Gesture {
    #[verifier::type_invariant]
    spec fn has_a_point(&self) -> bool {
        self.points@.len() >= 1
    }

    /// A gesture of the given points.
    pub fn new(points: Vec<Point>, intent: GestureIntent) -> (r: Gesture)
        requires
            points@.len() >= 1,
        ensures
            r@ == (GestureView { points: points@, intent }),
    {
        Gesture { points, intent }
    }

    /// A gesture of one point.
    pub fn starting_at(start: Point, intent: GestureIntent) -> (r: Gesture)
        ensures
            r@ == (GestureView { points: seq![start], intent }),
    {
        let mut points: Vec<Point> = Vec::new();
        points.push(start);
        assert(points@ =~= seq![start]);
        Gesture { points, intent }
    }

    /// The control points, of which there is always at least one.
    pub fn points(&self) -> (r: &Vec<Point>)
        ensures
            r@ == self@.points,
            self@.wf(),
    {
        proof {
            use_type_invariant(self);
        }
        &self.points
    }

    /// The intent.
    pub fn intent(&self) -> (r: GestureIntent)
        ensures
            r == self@.intent,
    {
        self.intent
    }

    /// Whether two gestures have the same points and the same intent.
    pub fn same_as(&self, other: &Gesture) -> (r: bool)
        ensures
            r == (self@ == other@),
    {
        if self.intent != other.intent || self.points.len() != other.points.len() {
            return false;
        }
        let mut i: usize = 0;
        while i < self.points.len()
            invariant
                i <= self.points@.len(),
                self.points@.len() == other.points@.len(),
                self.intent == other.intent,
                self.points@.take(i as int) == other.points@.take(i as int),
            decreases self.points@.len() - i,
        {
            if self.points[i] != other.points[i] {
                return false;
            }
            assert(self.points@.take(i + 1) == self.points@.take(i as int).push(
                self.points@[i as int],
            ));
            assert(other.points@.take(i + 1) == other.points@.take(i as int).push(
                other.points@[i as int],
            ));
            i += 1;
        }
        assert(self.points@.take(self.points@.len() as int) == self.points@);
        assert(other.points@.take(other.points@.len() as int) == other.points@);
        true
    }

    /// A gesture with one more point, behind the last or before the first.
    pub fn with_point_added(&self, point: Point, add_to_end: bool) -> (r: Gesture)
        ensures
            r@ == self@.add_point(point, add_to_end),
    {
        let mut points: Vec<Point> = copy_points(&self.points);
        if add_to_end {
            points.push(point);
        } else {
            points.insert(0, point);
            assert(points@ =~= seq![point] + self.points@);
        }
        Gesture { points, intent: self.intent }
    }

    /// A gesture with `point` put in at `index`.
    pub fn with_point_inserted(&self, index: usize, point: Point) -> (r: Gesture)
        requires
            index <= self@.points.len(),
        ensures
            r@ == self@.insert_point(index as int, point),
    {
        let mut points: Vec<Point> = copy_points(&self.points);
        points.insert(index, point);
        Gesture { points, intent: self.intent }
    }

    /// A gesture with the point at `index` replaced.
    pub fn with_point_moved(&self, index: usize, point: Point) -> (r: Gesture)
        requires
            index < self@.points.len(),
        ensures
            r@ == self@.move_point(index as int, point),
    {
        let mut points: Vec<Point> = copy_points(&self.points);
        points.set(index, point);
        Gesture { points, intent: self.intent }
    }

    /// A gesture with another intent.
    pub fn with_intent(&self, intent: GestureIntent) -> (r: Gesture)
        ensures
            r@ == self@.with_intent(intent),
    {
        proof {
            use_type_invariant(self);
        }
        Gesture { points: copy_points(&self.points), intent }
    }

    /// The two gestures that a cut at `position` leaves.
    pub fn split_halves(&self, position: SplitPosition) -> (r: (Gesture, Gesture))
        requires
            position.index <= self@.points.len(),
        ensures
            r.0@ == self@.first_half(position.index as int, position.point_before),
            r.1@ == self@.second_half(position.index as int, position.point_after),
    {
        let mut first: Vec<Point> = Vec::new();
        let mut second: Vec<Point> = Vec::new();
        second.push(position.point_after);
        let mut i: usize = 0;
        while i < self.points.len()
            invariant
                i <= self.points@.len(),
                position.index <= self.points@.len(),
                first@ == self.points@.take(if i <= position.index { i as int } else {
                    position.index as int
                }),
                second@ == seq![position.point_after] + self.points@.subrange(
                    position.index as int,
                    if i <= position.index { position.index as int } else { i as int },
                ),
            decreases self.points@.len() - i,
        {
            if i < position.index {
                first.push(self.points[i]);
                assert(self.points@.take(i + 1) =~= self.points@.take(i as int).push(
                    self.points@[i as int],
                ));
            } else {
                second.push(self.points[i]);
                assert(seq![position.point_after] + self.points@.subrange(
                    position.index as int,
                    i + 1,
                ) =~= (seq![position.point_after] + self.points@.subrange(
                    position.index as int,
                    i as int,
                )).push(self.points@[i as int]));
            }
            i += 1;
        }
        first.push(position.point_before);
        assert(self.points@.subrange(position.index as int, self.points@.len() as int)
            =~= self.points@.skip(position.index as int));
        (Gesture { points: first, intent: self.intent }, Gesture { points: second, intent: self.intent })
    }

    /// Where `point` is to be inserted: its projection onto the path through
    /// the control points decides.
    pub fn insertion_index(&self, point: Point) -> (r: usize)
        ensures
            r == self@.insertion_index(point),
            r <= self@.points.len(),
    {
        let distances = path_distances(&self.points);
        let along = project_onto_path(&self.points, point);
        proof {
            if distances.is_some() && along.is_some() {
                crate::geometry::lemma_first_reaching(distances->0@, along->0);
            }
        }
        insertion_index_from(self.points.len(), &distances, along)
    }

    /// Where `split_at` cuts the gesture, if its projection onto the path
    /// through the control points falls on the path.
    pub fn split_position(&self, split_at: Point) -> (r: Option<SplitPosition>)
        ensures
            r == self@.split_position(split_at),
            r.is_some() ==> r->0.index < self@.points.len(),
    {
        let distances = path_distances(&self.points);
        let along = project_onto_path(&self.points, split_at);
        match split_index_from(&distances, along) {
            Some(index) => {
                let a: Distance = along.unwrap();
                let before = point_along_path(&self.points, distance_minus(a, Distance(SPLIT_GAP)));
                let after = point_along_path(&self.points, distance_plus(a, Distance(SPLIT_GAP)));
                proof {
                    crate::geometry::lemma_first_reaching(distances->0@, a);
                }
                Some(
                    SplitPosition {
                        index,
                        point_before: before.unwrap(),
                        point_after: after.unwrap(),
                    },
                )
            },
            None => None,
        }
    }
}

} // verus!
