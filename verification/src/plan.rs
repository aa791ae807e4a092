//! Plans: gestures by their identity. A plan is a whole state or the few
//! gestures that one change touched.
use crate::gesture::{Gesture, GestureView};
use crate::identity::GestureID;
use crate::table::IdMap;
use vstd::prelude::*;

verus! {

/// What a plan is, as a mathematical value.
pub type PlanView = Map<GestureID, GestureView>;

/// A set of gestures, each under its own identity.
pub struct Plan {
    gestures: IdMap<GestureID, Gesture>,
}

/// The plan that holding the given entries one after the other gives: of two
/// entries with one identity the later one stays.
pub open spec fn plan_of_entries(entries: Seq<(GestureID, GestureView)>) -> PlanView
    decreases entries.len(),
{
    if entries.len() == 0 {
        Map::empty()
    } else {
        plan_of_entries(entries.drop_last()).insert(entries.last().0, entries.last().1)
    }
}

/// The views of a sequence of plans.
pub open spec fn plan_views(plans: Seq<Plan>) -> Seq<PlanView> {
    Seq::new(plans.len(), |i: int| plans[i]@)
}

/// A base state with the steps laid over it in order: for each gesture the
/// last step that holds it decides, and the base where no step does.
pub open spec fn fold_steps(base: PlanView, steps: Seq<PlanView>) -> PlanView
    decreases steps.len(),
{
    if steps.len() == 0 {
        base
    } else {
        fold_steps(base, steps.drop_last()).union_prefer_right(steps.last())
    }
}

/// The index of the last step that holds a gesture under `id`, if any does.
pub open spec fn last_holder(steps: Seq<PlanView>, id: GestureID) -> Option<int>
    decreases steps.len(),
{
    if steps.len() == 0 {
        None
    } else if steps.last().contains_key(id) {
        Some(steps.len() - 1)
    } else {
        last_holder(steps.drop_last(), id)
    }
}

/// Looking a gesture up in a base state with steps laid over it comes to
/// this: the last step that holds the gesture decides, and the base where no
/// step holds it.
pub proof fn lemma_fold_lookup(base: PlanView, steps: Seq<PlanView>, id: GestureID)
    ensures
        match last_holder(steps, id) {
            Some(i) => {
                &&& 0 <= i < steps.len()
                &&& steps[i].contains_key(id)
                &&& fold_steps(base, steps).contains_key(id)
                &&& fold_steps(base, steps)[id] == steps[i][id]
            },
            None => {
                &&& fold_steps(base, steps).contains_key(id) == base.contains_key(id)
                &&& base.contains_key(id) ==> fold_steps(base, steps)[id] == base[id]
            },
        },
    decreases steps.len(),
{
    if steps.len() > 0 {
        lemma_fold_lookup(base, steps.drop_last(), id);
    }
}

impl View for Plan {
    type V = PlanView;

    closed spec fn view(&self) -> PlanView {
        self.gestures@.map_values(|g: Gesture| g@)
    }
}

impl Clone for Plan {
    fn clone(&self) -> (r: Self)
        ensures
            r@ == self@,
    {
        let mut out = Plan::new();
        out.absorb(self);
        assert(out@ =~= self@);
        out
    }
}

impl Plan {
    /// The identities of the gestures, in the order in which they are walked
    /// by index.
    pub closed spec fn ids(&self) -> Seq<GestureID> {
        self.gestures.keys()
    }

    /// `ids()` names every gesture of the plan exactly once.
    pub open spec fn listed(&self) -> bool {
        &&& self.ids().no_duplicates()
        &&& forall|g: GestureID| self@.contains_key(g) <==> self.ids().contains(g)
        &&& forall|i: int| 0 <= i < self.ids().len() ==> self@.contains_key(#[trigger] self.ids()[i])
    }

    proof fn lemma_listed(&self)
        requires
            self.gestures.listed(),
        ensures
            self.listed(),
    {
    }

    /// A plan without gestures.
    pub fn new() -> (r: Plan)
        ensures
            r@ == Map::<GestureID, GestureView>::empty(),
    {
        let r = Plan { gestures: IdMap::new() };
        assert(r@ =~= Map::<GestureID, GestureView>::empty());
        r
    }

    /// A plan of one gesture.
    pub fn from_gesture(id: GestureID, gesture: Gesture) -> (r: Plan)
        ensures
            r@ == Map::<GestureID, GestureView>::empty().insert(id, gesture@),
    {
        let mut r = Plan::new();
        r.insert(id, gesture);
        r
    }

    /// A plan of the given gestures. Where an identity occurs twice, the
    /// later gesture stays.
    pub fn from_gestures(gestures: &Vec<(GestureID, Gesture)>) -> (r: Plan)
        ensures
            r@ == plan_of_entries(Seq::new(gestures@.len(), |i: int| (gestures@[i].0, gestures@[i].1@))),
    {
        let ghost entries = Seq::new(gestures@.len(), |i: int| (gestures@[i].0, gestures@[i].1@));
        let mut r = Plan::new();
        let mut i: usize = 0;
        while i < gestures.len()
            invariant
                i <= gestures@.len(),
                entries == Seq::new(gestures@.len(), |i: int| (gestures@[i].0, gestures@[i].1@)),
                r@ == plan_of_entries(entries.take(i as int)),
            decreases gestures@.len() - i,
        {
            r.insert(gestures[i].0, gestures[i].1.clone());
            assert(entries.take(i + 1).drop_last() == entries.take(i as int));
            i += 1;
        }
        assert(entries.take(entries.len() as int) == entries);
        r
    }

    /// The number of gestures.
    pub fn len(&self) -> (n: usize)
        ensures
            n == self.ids().len(),
            n == self@.len(),
            self@.dom().finite(),
            self.listed(),
    {
        let n = self.gestures.len();
        proof {
            self.lemma_listed();
            self.ids().unique_seq_to_set();
            assert(self.ids().to_set() =~= self@.dom());
        }
        n
    }

    /// The identity of the gesture at `index`.
    pub fn id_at(&self, index: usize) -> (g: GestureID)
        requires
            index < self.ids().len(),
        ensures
            g == self.ids()[index as int],
            self@.contains_key(g),
    {
        self.gestures.key_at(index)
    }

    /// The gesture at `index`.
    pub fn gesture_at(&self, index: usize) -> (r: &Gesture)
        requires
            index < self.ids().len(),
        ensures
            self@.contains_key(self.ids()[index as int]),
            r@ == self@[self.ids()[index as int]],
    {
        self.gestures.value_at(index)
    }

    /// Whether the plan holds a gesture under `id`.
    pub fn contains(&self, id: GestureID) -> (r: bool)
        ensures
            r == self@.contains_key(id),
    {
        self.gestures.contains_key(id)
    }

    /// The gesture held under `id`, if there is one.
    pub fn get(&self, id: GestureID) -> (r: Option<&Gesture>)
        ensures
            match r {
                Some(g) => self@.contains_key(id) && g@ == self@[id],
                None => !self@.contains_key(id),
            },
    {
        self.gestures.get(id)
    }

    /// Puts `gesture` under `id`, in place of what was there.
    pub fn insert(&mut self, id: GestureID, gesture: Gesture)
        ensures
            final(self)@ == old(self)@.insert(id, gesture@),
    {
        self.gestures.insert(id, gesture);
        assert(self@ =~= old(self)@.insert(id, gesture@));
    }

    /// Lays `other` over this plan: every gesture of `other` is put in, in
    /// place of what was there under its identity.
    pub fn absorb(&mut self, other: &Plan)
        ensures
            final(self)@ == old(self)@.union_prefer_right(other@),
    {
        let n = other.len();
        let ghost ids = other.ids();
        let mut i: usize = 0;
        while i < n
            invariant
                i <= n,
                n == other.ids().len(),
                ids == other.ids(),
                other.listed(),
                self@ == old(self)@.union_prefer_right(
                    other@.restrict(ids.take(i as int).to_set()),
                ),
            decreases n - i,
        {
            let id = other.id_at(i);
            let gesture = other.gesture_at(i).clone();
            let ghost before = self@;
            self.insert(id, gesture);
            proof {
                let seen = ids.take(i as int).to_set();
                let seen_after = ids.take(i + 1).to_set();
                assert(ids.take(i + 1) == ids.take(i as int).push(id));
                ids.take(i as int).lemma_push_to_set_commute(id);
                assert(seen_after == seen.insert(id));
                assert(self@ =~= old(self)@.union_prefer_right(other@.restrict(seen_after)));
            }
            i += 1;
        }
        proof {
            assert(ids.take(n as int) == ids);
            assert(other@.restrict(ids.to_set()) =~= other@);
        }
    }

    /// This plan with `other` laid over it.
    pub fn merged_with(&self, other: &Plan) -> (r: Plan)
        ensures
            r@ == self@.union_prefer_right(other@),
    {
        let mut r = self.clone();
        r.absorb(other);
        r
    }

    /// Whether every gesture of this plan stands in `other` unchanged.
    fn within(&self, other: &Plan) -> (r: bool)
        ensures
            r == (forall|g: GestureID| #[trigger]
                self@.contains_key(g) ==> other@.contains_key(g) && other@[g] == self@[g]),
    {
        let n = self.len();
        let mut i: usize = 0;
        while i < n
            invariant
                i <= n,
                n == self.ids().len(),
                self.listed(),
                forall|j: int|
                    0 <= j < i ==> other@.contains_key(#[trigger] self.ids()[j]) && other@[self.ids()[j]]
                        == self@[self.ids()[j]],
            decreases n - i,
        {
            let id = self.id_at(i);
            match other.get(id) {
                Some(g) => {
                    if !g.same_as(self.gesture_at(i)) {
                        return false;
                    }
                },
                None => {
                    return false;
                },
            }
            i += 1;
        }
        assert forall|g: GestureID| #[trigger] self@.contains_key(g) implies other@.contains_key(g)
            && other@[g] == self@[g] by {
            assert(self.ids().contains(g));
            let j = choose|j: int| 0 <= j < self.ids().len() && self.ids()[j] == g;
            assert(other@.contains_key(self.ids()[j]));
        }
        true
    }

    /// Whether two plans hold the same gestures under the same identities.
    pub fn same_as(&self, other: &Plan) -> (r: bool)
        ensures
            r == (self@ == other@),
    {
        let r = self.within(other) && other.within(self);
        proof {
            if r {
                assert(self@ =~= other@);
            }
        }
        r
    }
}

/// The gesture that the last of the steps that hold one under `id` holds.
pub fn find_in_steps<'a>(steps: &'a Vec<Plan>, id: GestureID) -> (r: Option<&'a Gesture>)
    ensures
        match r {
            Some(gesture) => last_holder(plan_views(steps@), id).is_some() && gesture@
                == plan_views(steps@)[last_holder(plan_views(steps@), id)->0][id],
            None => last_holder(plan_views(steps@), id).is_none(),
        },
{
    let ghost views = plan_views(steps@);
    let mut i: usize = steps.len();
    assert(views.take(i as int) == views);
    while i > 0
        invariant
            i <= steps@.len(),
            views == plan_views(steps@),
            last_holder(views, id) == last_holder(views.take(i as int), id),
        decreases i,
    {
        i -= 1;
        assert(views.take(i + 1).last() == views[i as int]);
        assert(views.take(i + 1).drop_last() == views.take(i as int));
        match steps[i].get(id) {
            Some(gesture) => {
                return Some(gesture);
            },
            None => {},
        }
    }
    None
}

/// Lays the steps over `base`, one after the other.
pub fn fold_onto(base: &mut Plan, steps: &Vec<Plan>)
    ensures
        final(base)@ == fold_steps(old(base)@, plan_views(steps@)),
{
    let ghost views = plan_views(steps@);
    let mut i: usize = 0;
    while i < steps.len()
        invariant
            i <= steps@.len(),
            views == plan_views(steps@),
            base@ == fold_steps(old(base)@, views.take(i as int)),
        decreases steps@.len() - i,
    {
        base.absorb(&steps[i]);
        assert(views.take(i + 1).drop_last() == views.take(i as int));
        i += 1;
    }
    assert(views.take(views.len() as int) == views);
}

} // verus!
