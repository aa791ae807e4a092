//! Points, lengths along a path, and the path computations that the editing
//! operations rest on.
//!
//! Coordinates and lengths are single-precision numbers. They are held as
//! their bit patterns, so that they can be stored, copied and compared for
//! identity exactly. The order of lengths is decided here on the bit
//! patterns; everything else that is computed with them is done by the
//! `descartes` crate.
//!
//! A computation whose result is not a number may give any of the bit
//! patterns that stand for no number. Such a result is replaced by one fixed
//! pattern before it is used, so that what comes of a computation depends on
//! what went into it alone.
use descartes::{LinePath, N, P2};
use vstd::prelude::*;

verus! {

/// A position in the plane, each coordinate held as the bit pattern of a
/// single-precision number.
#[derive(Clone, Copy, PartialEq, Eq, Structural, Debug)]
pub struct Point {
    pub x: u32,
    pub y: u32,
}

/// A length measured along a path, held as the bit pattern of a
/// single-precision number.
#[derive(Clone, Copy, PartialEq, Eq, Structural, Debug)]
pub struct Distance(pub u32);

/// The bit pattern of the length five: how far from the split position, along
/// the path, each of the two end points made by a split is placed.
pub const SPLIT_GAP: u32 = 0x40A0_0000;

/// The one bit pattern that is kept for a result that is not a number.
pub const NOT_A_NUMBER: u32 = 0x7fc0_0000;

/// The bit pattern itself where it stands for a number, and `NOT_A_NUMBER`
/// where it does not.
pub open spec fn canonical_bits(bits: u32) -> u32 {
    if Distance(bits).is_nan() {
        NOT_A_NUMBER
    } else {
        bits
    }
}

/// Computes `canonical_bits`.
pub fn canonicalize_bits(bits: u32) -> (r: u32)
    ensures
        r == canonical_bits(bits),
{
    let magnitude: u32 = if bits >= 0x8000_0000 {
        bits - 0x8000_0000
    } else {
        bits
    };
    if magnitude > 0x7f80_0000 {
        NOT_A_NUMBER
    } else {
        bits
    }
}

impl Point {
    /// The point with each coordinate that is not a number replaced by
    /// `NOT_A_NUMBER`.
    pub open spec fn canonical(self) -> Point {
        Point { x: canonical_bits(self.x), y: canonical_bits(self.y) }
    }
}

impl Distance {
    /// The bit pattern without its sign bit.
    pub open spec fn magnitude(self) -> int {
        if self.0 >= 0x8000_0000 {
            self.0 - 0x8000_0000
        } else {
            self.0 as int
        }
    }

    /// Whether the bit pattern stands for no number at all.
    pub open spec fn is_nan(self) -> bool {
        self.magnitude() > 0x7f80_0000
    }

    /// An integer that orders bit patterns as the numbers they stand for are
    /// ordered. Both zeros have rank 0.
    pub open spec fn rank(self) -> int {
        if self.0 >= 0x8000_0000 {
            -self.magnitude()
        } else {
            self.magnitude()
        }
    }

    /// The length itself where it is a number, and `NOT_A_NUMBER` where it
    /// is not.
    pub open spec fn canonical(self) -> Distance {
        Distance(canonical_bits(self.0))
    }

    /// `self >= other` as numbers: false as soon as one of the two is not a
    /// number.
    pub open spec fn reaches(self, other: Distance) -> bool {
        !self.is_nan() && !other.is_nan() && self.rank() >= other.rank()
    }

    /// Decides `self >= other` as numbers.
    pub fn at_least(self, other: Distance) -> (r: bool)
        ensures
            r == self.reaches(other),
    {
        let a: u32 = self.0;
        let b: u32 = other.0;
        let a_neg: bool = a >= 0x8000_0000;
        let b_neg: bool = b >= 0x8000_0000;
        let a_mag: u32 = if a_neg { a - 0x8000_0000 } else { a };
        let b_mag: u32 = if b_neg { b - 0x8000_0000 } else { b };
        if a_mag > 0x7f80_0000 || b_mag > 0x7f80_0000 {
            false
        } else if a_neg {
            if b_neg { a_mag <= b_mag } else { a_mag == 0 && b_mag == 0 }
        } else {
            if b_neg { true } else { a_mag >= b_mag }
        }
    }
}

/// The first index of `distances` whose entry reaches `target`, if there is one.
pub open spec fn first_reaching(distances: Seq<Distance>, target: Distance) -> Option<int>
    decreases distances.len(),
{
    if distances.len() == 0 {
        None
    } else if distances[0].reaches(target) {
        Some(0int)
    } else {
        match first_reaching(distances.skip(1), target) {
            Some(i) => Some(i + 1),
            None => None,
        }
    }
}

/// What `first_reaching` picks: an index whose entry reaches the target while
/// none before it does, or nothing where no entry reaches it.
pub proof fn lemma_first_reaching(distances: Seq<Distance>, target: Distance)
    ensures
        match first_reaching(distances, target) {
            Some(i) => {
                &&& 0 <= i < distances.len()
                &&& distances[i].reaches(target)
                &&& forall|j: int| 0 <= j < i ==> !(#[trigger] distances[j]).reaches(target)
            },
            None => forall|j: int|
                0 <= j < distances.len() ==> !(#[trigger] distances[j]).reaches(target),
        },
    decreases distances.len(),
{
    if distances.len() > 0 && !distances[0].reaches(target) {
        let rest = distances.skip(1);
        lemma_first_reaching(rest, target);
        match first_reaching(rest, target) {
            Some(i) => {
                assert forall|j: int| 0 <= j < i + 1 implies !(#[trigger] distances[j]).reaches(
                    target,
                ) by {
                    if j > 0 {
                        assert(distances[j] == rest[j - 1]);
                    }
                }
                assert(distances[i + 1] == rest[i]);
            },
            None => {
                assert forall|j: int| 0 <= j < distances.len() implies !(
                #[trigger] distances[j]).reaches(target) by {
                    if j > 0 {
                        assert(distances[j] == rest[j - 1]);
                    }
                }
            },
        }
    }
}

/// An index is the one `first_reaching` picks as soon as its entry reaches
/// the target and no earlier entry does.
pub proof fn lemma_first_reaching_is(distances: Seq<Distance>, target: Distance, i: int)
    requires
        0 <= i < distances.len(),
        distances[i].reaches(target),
        forall|j: int| 0 <= j < i ==> !(#[trigger] distances[j]).reaches(target),
    ensures
        first_reaching(distances, target) == Some(i),
{
    lemma_first_reaching(distances, target);
}

/// Finds the first entry of `distances` that is at least `target`.
pub fn first_index_at_least(distances: &Vec<Distance>, target: Distance) -> (r: Option<usize>)
    ensures
        match r {
            Some(i) => first_reaching(distances@, target) == Some(i as int),
            None => first_reaching(distances@, target).is_none(),
        },
{
    let mut i: usize = 0;
    while i < distances.len()
        invariant
            i <= distances.len(),
            forall|j: int| 0 <= j < i ==> !(#[trigger] distances@[j]).reaches(target),
        decreases distances.len() - i,
    {
        if distances[i].at_least(target) {
            proof {
                lemma_first_reaching_is(distances@, target, i as int);
            }
            return Some(i);
        }
        i += 1;
    }
    proof {
        lemma_first_reaching(distances@, target);
    }
    None
}

/// The lengths of a sequence, each replaced by `NOT_A_NUMBER` where it is
/// not a number.
pub open spec fn canonical_distances(distances: Seq<Distance>) -> Seq<Distance> {
    distances.map_values(|d: Distance| d.canonical())
}

/// The lengths along the path at which the points of the path lie that
/// `descartes::LinePath::new` builds from `points`: one entry for each point
/// that it keeps, with `NOT_A_NUMBER` for a length that is not a number.
/// `None` where it builds no path.
pub uninterp spec fn line_path_distances(points: Seq<Point>) -> Option<Seq<Distance>>;

/// The length along the path built from `points` at which
/// `descartes::LinePath::project` lands `point`, with `NOT_A_NUMBER` for a
/// length that is not a number. `None` where no path is built or the point
/// projects onto none of its segments.
pub uninterp spec fn line_path_projection(points: Seq<Point>, point: Point) -> Option<Distance>;

/// The point that `descartes::LinePath::along` finds at `distance` along the
/// path built from `points`, with `NOT_A_NUMBER` for a coordinate that is not
/// a number. `None` where no path is built.
pub uninterp spec fn line_path_point_along(points: Seq<Point>, distance: Distance) -> Option<
    Point,
>;

/// The sum of two single-precision numbers, on bit patterns, with
/// `NOT_A_NUMBER` for a sum that is not a number.
pub uninterp spec fn distance_sum(a: Distance, b: Distance) -> Distance;

/// The difference of two single-precision numbers, on bit patterns, with
/// `NOT_A_NUMBER` for a difference that is not a number.
pub uninterp spec fn distance_difference(a: Distance, b: Distance) -> Distance;

/// Calls `descartes::LinePath::new` on the points, handed over as `descartes`
/// points, and reads the field `distances` of the path that comes back.
///
/// The contract names the result, up to the bit patterns of lengths that are
/// not numbers, and says of it what the constructor's source shows: it builds
/// a path only from two points on, keeps at least two of the points and never
/// more than it was given, and there is one distance for each point kept.
#[verifier::external_body]
fn descartes_path_distances(points: &Vec<Point>) -> (r: Option<Vec<Distance>>)
    ensures
        match r {
            Some(d) => line_path_distances(points@) == Some(canonical_distances(d@)) && 2
                <= d@.len() <= points@.len(),
            None => line_path_distances(points@).is_none(),
        },
{
    let outline: Vec<P2> = points.iter().map(
        |p| P2::new(N::from_bits(p.x), N::from_bits(p.y)),
    ).collect();
    LinePath::new(outline).map(
        |path| path.distances.iter().map(|d| Distance(d.to_bits())).collect(),
    )
}

/// Calls `descartes::LinePath::new` on the points and then
/// `descartes::LinePath::project` with `point`, and keeps the first part of
/// what comes back: the length along the path. The contract names the
/// result, up to the bit pattern of a length that is not a number, and says
/// no more.
#[verifier::external_body]
fn descartes_project(points: &Vec<Point>, point: Point) -> (r: Option<Distance>)
    ensures
        match r {
            Some(along) => line_path_projection(points@, point) == Some(along.canonical()),
            None => line_path_projection(points@, point).is_none(),
        },
{
    let outline: Vec<P2> = points.iter().map(
        |p| P2::new(N::from_bits(p.x), N::from_bits(p.y)),
    ).collect();
    let target = P2::new(N::from_bits(point.x), N::from_bits(point.y));
    LinePath::new(outline).and_then(|path| path.project(target)).map(
        |(along, _)| Distance(along.to_bits()),
    )
}

/// Calls `descartes::LinePath::new` on the points and then
/// `descartes::LinePath::along` with `distance`. The contract names the
/// result, up to the bit patterns of coordinates that are not numbers, and
/// says that there is a point exactly where the constructor builds a path:
/// `along` gives a point for every length.
#[verifier::external_body]
fn descartes_along(points: &Vec<Point>, distance: Distance) -> (r: Option<Point>)
    ensures
        match r {
            Some(point) => line_path_point_along(points@, distance) == Some(point.canonical()),
            None => line_path_point_along(points@, distance).is_none(),
        },
        r.is_some() == line_path_distances(points@).is_some(),
{
    let outline: Vec<P2> = points.iter().map(
        |p| P2::new(N::from_bits(p.x), N::from_bits(p.y)),
    ).collect();
    LinePath::new(outline).map(|path| path.along(N::from_bits(distance.0))).map(
        |q| Point { x: q.x.to_bits(), y: q.y.to_bits() },
    )
}

/// Adds two lengths with the `+` of single-precision numbers
/// (`std::ops::Add`). The contract names the result, up to the bit pattern
/// of a sum that is not a number, and says no more.
#[verifier::external_body]
fn number_plus(a: Distance, b: Distance) -> (r: Distance)
    ensures
        r.canonical() == distance_sum(a, b),
{
    Distance((N::from_bits(a.0) + N::from_bits(b.0)).to_bits())
}

/// Subtracts `b` from `a` with the `-` of single-precision numbers
/// (`std::ops::Sub`). The contract names the result, up to the bit pattern
/// of a difference that is not a number, and says no more.
#[verifier::external_body]
fn number_minus(a: Distance, b: Distance) -> (r: Distance)
    ensures
        r.canonical() == distance_difference(a, b),
{
    Distance((N::from_bits(a.0) - N::from_bits(b.0)).to_bits())
}

/// The lengths along the path through `points` at which its points lie, if
/// the points make a path.
pub(crate) fn path_distances(points: &Vec<Point>) -> (r: Option<Vec<Distance>>)
    ensures
        match r {
            Some(d) => line_path_distances(points@) == Some(d@) && 2 <= d@.len() <= points@.len(),
            None => line_path_distances(points@).is_none(),
        },
{
    match descartes_path_distances(points) {
        Some(computed) => {
            let mut distances: Vec<Distance> = Vec::new();
            let mut i: usize = 0;
            while i < computed.len()
                invariant
                    i <= computed@.len(),
                    distances@ == canonical_distances(computed@).take(i as int),
                decreases computed@.len() - i,
            {
                distances.push(Distance(canonicalize_bits(computed[i].0)));
                assert(distances@ =~= canonical_distances(computed@).take(i + 1));
                i += 1;
            }
            assert(canonical_distances(computed@).take(computed@.len() as int)
                =~= canonical_distances(computed@));
            Some(distances)
        },
        None => None,
    }
}

/// The length along the path through `points` at which `point` projects onto
/// it, if there is a path and the point projects onto it.
pub(crate) fn project_onto_path(points: &Vec<Point>, point: Point) -> (r: Option<Distance>)
    ensures
        r == line_path_projection(points@, point),
{
    match descartes_project(points, point) {
        Some(along) => Some(Distance(canonicalize_bits(along.0))),
        None => None,
    }
}

/// The point at the length `distance` along the path through `points`, if
/// there is a path.
pub(crate) fn point_along_path(points: &Vec<Point>, distance: Distance) -> (r: Option<Point>)
    ensures
        r == line_path_point_along(points@, distance),
        r.is_some() == line_path_distances(points@).is_some(),
{
    match descartes_along(points, distance) {
        Some(point) => Some(
            Point { x: canonicalize_bits(point.x), y: canonicalize_bits(point.y) },
        ),
        None => None,
    }
}

/// The sum of two lengths.
pub(crate) fn distance_plus(a: Distance, b: Distance) -> (r: Distance)
    ensures
        r == distance_sum(a, b),
{
    Distance(canonicalize_bits(number_plus(a, b).0))
}

/// The difference of two lengths.
pub(crate) fn distance_minus(a: Distance, b: Distance) -> (r: Distance)
    ensures
        r == distance_difference(a, b),
{
    Distance(canonicalize_bits(number_minus(a, b).0))
}

} // verus!
