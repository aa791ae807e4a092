//! What a plan amounts to once it is worked out: a set of prototypes, the
//! actions that lead from one such result to another, and what an observer is
//! sent about a result.
//!
//! Working a plan out is not done here. A result is handed in as the
//! identities of its prototypes; each identity stands for one prototype with
//! all it holds.
use vstd::prelude::*;

verus! {

/// The identity of a prototype. Two prototypes with one identity are the same.
#[derive(Clone, Copy, PartialEq, Eq, Structural, Debug, Hash)]
pub struct PrototypeID(pub u64);

/// Why a plan could not be worked out.
#[derive(Debug)]
pub enum AreaError {
    /// Pieces of an outline could not be joined; the string says which.
    WeldingShouldWork(String),
    /// Geometry was left over; the string describes it.
    LeftOver(String),
}

/// One thing to do to get from one result to another.
#[derive(Clone, Copy, PartialEq, Eq, Structural, Debug)]
pub enum Action {
    Construct(PrototypeID),
    Destruct(PrototypeID),
}

/// The actions that lead from one result to another, in groups that are to be
/// carried out one after the other.
pub struct ActionGroups(pub Vec<Vec<Action>>);

/// The prototypes of a worked-out plan, each once.
pub struct PlanResult {
    prototypes: Vec<PrototypeID>,
}

/// What an observer knows of a result: the prototypes it holds.
pub struct KnownPlanResultState {
    pub known_prototype_ids: Vec<PrototypeID>,
}

/// What an observer is sent about a result.
pub enum PlanResultUpdate {
    /// The observer holds exactly the prototypes of the result.
    Unchanged,
    /// The prototypes that the observer lacks and those that it is to drop.
    Changed { new_prototypes: Vec<PrototypeID>, dropped_prototypes: Vec<PrototypeID> },
    /// The whole result: the observer holds none of its prototypes.
    ChangedCompletely(PlanResult),
}

/// `PlanResultUpdate` as a mathematical value.
pub enum PlanResultUpdateView {
    Unchanged,
    Changed { new_prototypes: Seq<PrototypeID>, dropped_prototypes: Seq<PrototypeID> },
    ChangedCompletely(Seq<PrototypeID>),
}

/// The entries of `ids` that do not occur in `excluded`, in their order.
pub open spec fn without(ids: Seq<PrototypeID>, excluded: Seq<PrototypeID>) -> Seq<PrototypeID>
    decreases ids.len(),
{
    if ids.len() == 0 {
        Seq::empty()
    } else {
        let rest = without(ids.drop_last(), excluded);
        if excluded.contains(ids.last()) {
            rest
        } else {
            rest.push(ids.last())
        }
    }
}

/// The entries of `ids` in their order, each kept where it occurs first.
pub open spec fn distinct(ids: Seq<PrototypeID>) -> Seq<PrototypeID>
    decreases ids.len(),
{
    if ids.len() == 0 {
        Seq::empty()
    } else {
        let rest = distinct(ids.drop_last());
        if rest.contains(ids.last()) {
            rest
        } else {
            rest.push(ids.last())
        }
    }
}

/// The actions that lead from the prototypes `from` to the prototypes `to`:
/// first what is no longer there is destructed, then what is new is
/// constructed. What both hold is left alone.
pub open spec fn actions_between(from: Seq<PrototypeID>, to: Seq<PrototypeID>) -> Seq<Seq<Action>> {
    seq![
        without(from, to).map_values(|id: PrototypeID| Action::Destruct(id)),
        without(to, from).map_values(|id: PrototypeID| Action::Construct(id)),
    ]
}

/// What an observer that holds `known` is sent about the prototypes
/// `current`: nothing where it holds exactly these; all of them where it
/// holds none of them; else those it lacks and those it is to drop.
pub open spec fn update_between(current: Seq<PrototypeID>, known: Seq<PrototypeID>)
    -> PlanResultUpdateView {
    let new_prototypes = without(current, known);
    let dropped_prototypes = without(known, current);
    if new_prototypes.len() == 0 && dropped_prototypes.len() == 0 {
        PlanResultUpdateView::Unchanged
    } else if new_prototypes.len() == current.len() {
        PlanResultUpdateView::ChangedCompletely(current)
    } else {
        PlanResultUpdateView::Changed { new_prototypes, dropped_prototypes }
    }
}

/// `without` keeps exactly the entries that the other sequence lacks, and
/// keeps each as often as it was there.
pub proof fn lemma_without(ids: Seq<PrototypeID>, excluded: Seq<PrototypeID>)
    ensures
        forall|id: PrototypeID| #[trigger]
            without(ids, excluded).contains(id) <==> ids.contains(id) && !excluded.contains(id),
        without(ids, excluded).len() <= ids.len(),
        ids.no_duplicates() ==> without(ids, excluded).no_duplicates(),
        without(ids, excluded).len() == ids.len() <==> forall|i: int|
            0 <= i < ids.len() ==> !excluded.contains(#[trigger] ids[i]),
    decreases ids.len(),
{
    if ids.len() > 0 {
        let front = ids.drop_last();
        let last = ids.last();
        let rest = without(front, excluded);
        lemma_without(front, excluded);
        assert forall|id: PrototypeID| #[trigger]
            without(ids, excluded).contains(id) <==> ids.contains(id) && !excluded.contains(
                id,
            ) by {
            if ids.contains(id) {
                let i = choose|i: int| 0 <= i < ids.len() && ids[i] == id;
                if i < ids.len() - 1 {
                    assert(front[i] == id);
                }
            }
            if front.contains(id) {
                let i = choose|i: int| 0 <= i < front.len() && front[i] == id;
                assert(ids[i] == id);
            }
            if !excluded.contains(last) {
                vstd::seq_lib::lemma_seq_contains_after_push(rest, last, id);
            }
            assert(ids[ids.len() - 1] == last);
        }
        if ids.no_duplicates() {
            assert(front.no_duplicates());
            if !excluded.contains(last) {
                assert(!front.contains(last)) by {
                    if front.contains(last) {
                        let i = choose|i: int| 0 <= i < front.len() && front[i] == last;
                        assert(ids[i] == ids[ids.len() - 1]);
                    }
                }
                assert(!rest.contains(last));
                assert(rest.push(last).no_duplicates()) by {
                    assert forall|a: int, b: int|
                        0 <= a < rest.len() + 1 && 0 <= b < rest.len() + 1 && a != b implies rest.push(
                        last,
                    )[a] != rest.push(last)[b] by {
                        if a < rest.len() {
                            assert(rest.contains(rest[a]));
                        }
                        if b < rest.len() {
                            assert(rest.contains(rest[b]));
                        }
                    }
                }
            }
        }
        if without(ids, excluded).len() == ids.len() {
            assert forall|i: int| 0 <= i < ids.len() implies !excluded.contains(
                #[trigger] ids[i],
            ) by {
                if i < ids.len() - 1 {
                    assert(front[i] == ids[i]);
                }
            }
        }
        if forall|i: int| 0 <= i < ids.len() ==> !excluded.contains(#[trigger] ids[i]) {
            assert forall|i: int| 0 <= i < front.len() implies !excluded.contains(
                #[trigger] front[i],
            ) by {
                assert(front[i] == ids[i]);
            }
            assert(!excluded.contains(ids[ids.len() - 1]));
        }
    }
}

/// The actions between two results are what is needed and no more: a
/// prototype is destructed exactly where the first result holds it and the
/// second does not, constructed exactly where the second holds it and the
/// first does not, and no prototype is acted on twice.
pub proof fn lemma_actions_are_what_is_needed(from: Seq<PrototypeID>, to: Seq<PrototypeID>)
    requires
        from.no_duplicates(),
        to.no_duplicates(),
    ensures
        actions_between(from, to).len() == 2,
        forall|id: PrototypeID|
            actions_between(from, to)[0].contains(Action::Destruct(id)) <==> from.contains(id)
                && !to.contains(id),
        forall|id: PrototypeID|
            actions_between(from, to)[1].contains(Action::Construct(id)) <==> to.contains(id)
                && !from.contains(id),
        forall|id: PrototypeID| !actions_between(from, to)[0].contains(Action::Construct(id)),
        forall|id: PrototypeID| !actions_between(from, to)[1].contains(Action::Destruct(id)),
        actions_between(from, to)[0].no_duplicates(),
        actions_between(from, to)[1].no_duplicates(),
{
    lemma_without(from, to);
    lemma_without(to, from);
    let gone = without(from, to);
    let added = without(to, from);
    let destruct = actions_between(from, to)[0];
    let construct = actions_between(from, to)[1];
    assert(destruct.len() == gone.len());
    assert(construct.len() == added.len());
    assert forall|id: PrototypeID|
        destruct.contains(Action::Destruct(id)) <==> from.contains(id) && !to.contains(id) by {
        assert(gone.contains(id) <==> from.contains(id) && !to.contains(id));
        if gone.contains(id) {
            let i = choose|i: int| 0 <= i < gone.len() && gone[i] == id;
            assert(destruct[i] == Action::Destruct(id));
        }
        if destruct.contains(Action::Destruct(id)) {
            let i = choose|i: int| 0 <= i < destruct.len() && destruct[i] == Action::Destruct(id);
            assert(gone[i] == id);
        }
    }
    assert forall|id: PrototypeID|
        construct.contains(Action::Construct(id)) <==> to.contains(id) && !from.contains(id) by {
        assert(added.contains(id) <==> to.contains(id) && !from.contains(id));
        if added.contains(id) {
            let i = choose|i: int| 0 <= i < added.len() && added[i] == id;
            assert(construct[i] == Action::Construct(id));
        }
        if construct.contains(Action::Construct(id)) {
            let i = choose|i: int| 0 <= i < construct.len() && construct[i] == Action::Construct(
                id,
            );
            assert(added[i] == id);
        }
    }
    assert forall|id: PrototypeID| !destruct.contains(Action::Construct(id)) by {
        if destruct.contains(Action::Construct(id)) {
            let i = choose|i: int| 0 <= i < destruct.len() && destruct[i] == Action::Construct(id);
            assert(destruct[i] == Action::Destruct(gone[i]));
        }
    }
    assert forall|id: PrototypeID| !construct.contains(Action::Destruct(id)) by {
        if construct.contains(Action::Destruct(id)) {
            let i = choose|i: int| 0 <= i < construct.len() && construct[i] == Action::Destruct(id);
            assert(construct[i] == Action::Construct(added[i]));
        }
    }
    assert forall|i: int, j: int|
        0 <= i < destruct.len() && 0 <= j < destruct.len() && i != j implies destruct[i]
        != destruct[j] by {
        assert(gone[i] != gone[j]);
    }
    assert forall|i: int, j: int|
        0 <= i < construct.len() && 0 <= j < construct.len() && i != j implies construct[i]
        != construct[j] by {
        assert(added[i] != added[j]);
    }
}

/// An observer that holds exactly the prototypes of a result is told that
/// nothing changed, and no other observer is.
pub proof fn lemma_unchanged_means_same_prototypes(
    current: Seq<PrototypeID>,
    known: Seq<PrototypeID>,
)
    ensures
        update_between(current, known) is Unchanged <==> current.to_set() == known.to_set(),
{
    lemma_without(current, known);
    lemma_without(known, current);
    let new_prototypes = without(current, known);
    let dropped_prototypes = without(known, current);
    if update_between(current, known) is Unchanged {
        assert forall|id: PrototypeID| current.contains(id) <==> known.contains(id) by {
            if current.contains(id) && !known.contains(id) {
                assert(new_prototypes.contains(id));
            }
            if known.contains(id) && !current.contains(id) {
                assert(dropped_prototypes.contains(id));
            }
        }
        assert(current.to_set() =~= known.to_set());
    }
    if current.to_set() == known.to_set() {
        assert forall|id: PrototypeID| current.contains(id) <==> known.contains(id) by {
            assert(current.to_set().contains(id) <==> known.to_set().contains(id));
        }
        if new_prototypes.len() > 0 {
            assert(new_prototypes.contains(new_prototypes[0]));
        }
        if dropped_prototypes.len() > 0 {
            assert(dropped_prototypes.contains(dropped_prototypes[0]));
        }
    }
}

/// Whether `id` is among `ids`.
fn holds(ids: &Vec<PrototypeID>, id: PrototypeID) -> (r: bool)
    ensures
        r == ids@.contains(id),
{
    let mut i: usize = 0;
    while i < ids.len()
        invariant
            i <= ids@.len(),
            forall|j: int| 0 <= j < i ==> ids@[j] != id,
        decreases ids@.len() - i,
    {
        if ids[i] == id {
            return true;
        }
        i += 1;
    }
    false
}

/// The entries of `ids` that `excluded` lacks.
fn entries_without(ids: &Vec<PrototypeID>, excluded: &Vec<PrototypeID>) -> (r: Vec<PrototypeID>)
    ensures
        r@ == without(ids@, excluded@),
{
    let mut out: Vec<PrototypeID> = Vec::new();
    let mut i: usize = 0;
    while i < ids.len()
        invariant
            i <= ids@.len(),
            out@ == without(ids@.take(i as int), excluded@),
        decreases ids@.len() - i,
    {
        assert(ids@.take(i + 1).drop_last() == ids@.take(i as int));
        if !holds(excluded, ids[i]) {
            out.push(ids[i]);
        }
        i += 1;
    }
    assert(ids@.take(ids@.len() as int) == ids@);
    out
}

/// A copy of the identities.
fn copy_ids(ids: &Vec<PrototypeID>) -> (r: Vec<PrototypeID>)
    ensures
        r@ == ids@,
{
    let mut out: Vec<PrototypeID> = Vec::new();
    let mut i: usize = 0;
    while i < ids.len()
        invariant
            i <= ids@.len(),
            out@ == ids@.take(i as int),
        decreases ids@.len() - i,
    {
        out.push(ids[i]);
        assert(ids@.take(i + 1) == ids@.take(i as int).push(ids@[i as int]));
        i += 1;
    }
    assert(ids@.take(ids@.len() as int) == ids@);
    out
}

impl View for ActionGroups {
    type V = Seq<Seq<Action>>;

    open spec fn view(&self) -> Seq<Seq<Action>> {
        Seq::new(self.0@.len(), |i: int| self.0@[i]@)
    }
}

impl Clone for ActionGroups {
    fn clone(&self) -> (r: Self)
        ensures
            r@ == self@,
    {
        let mut groups: Vec<Vec<Action>> = Vec::new();
        let mut i: usize = 0;
        while i < self.0.len()
            invariant
                i <= self.0@.len(),
                groups@.len() == i,
                forall|j: int| 0 <= j < i ==> (#[trigger] groups@[j])@ == self.0@[j]@,
            decreases self.0@.len() - i,
        {
            let source = &self.0[i];
            let mut group: Vec<Action> = Vec::new();
            let mut k: usize = 0;
            while k < source.len()
                invariant
                    k <= source@.len(),
                    group@ == source@.take(k as int),
                decreases source@.len() - k,
            {
                group.push(source[k]);
                assert(source@.take(k + 1) == source@.take(k as int).push(source@[k as int]));
                k += 1;
            }
            assert(source@.take(source@.len() as int) == source@);
            groups.push(group);
            i += 1;
        }
        let r = ActionGroups(groups);
        assert(r@ =~= self@);
        r
    }
}

impl View for KnownPlanResultState {
    type V = Seq<PrototypeID>;

    open spec fn view(&self) -> Seq<PrototypeID> {
        self.known_prototype_ids@
    }
}

impl View for PlanResult {
    type V = Seq<PrototypeID>;

    closed spec fn view(&self) -> Seq<PrototypeID> {
        self.prototypes@
    }
}

impl View for PlanResultUpdate {
    type V = PlanResultUpdateView;

    open spec fn view(&self) -> PlanResultUpdateView {
        match self {
            PlanResultUpdate::Unchanged => PlanResultUpdateView::Unchanged,
            PlanResultUpdate::Changed { new_prototypes, dropped_prototypes } => {
                PlanResultUpdateView::Changed {
                    new_prototypes: new_prototypes@,
                    dropped_prototypes: dropped_prototypes@,
                }
            },
            PlanResultUpdate::ChangedCompletely(result) => PlanResultUpdateView::ChangedCompletely(
                result@,
            ),
        }
    }
}

impl Clone for PlanResult {
    fn clone(&self) -> (r: Self)
        ensures
            r@ == self@,
    {
        proof {
            use_type_invariant(self);
        }
        PlanResult { prototypes: copy_ids(&self.prototypes) }
    }
}

impl PlanResult {
    #[verifier::type_invariant]
    spec fn each_once(&self) -> bool {
        self.prototypes@.no_duplicates()
    }

    /// A result without prototypes.
    pub fn new() -> (r: PlanResult)
        ensures
            r@ == Seq::<PrototypeID>::empty(),
    {
        PlanResult { prototypes: Vec::new() }
    }

    /// The result that holds the given prototypes. An identity that is given
    /// more than once counts once, at its first place.
    pub fn from_prototypes(ids: &Vec<PrototypeID>) -> (r: PlanResult)
        ensures
            r@ == distinct(ids@),
    {
        let mut out: Vec<PrototypeID> = Vec::new();
        let mut i: usize = 0;
        while i < ids.len()
            invariant
                i <= ids@.len(),
                out@ == distinct(ids@.take(i as int)),
                out@.no_duplicates(),
            decreases ids@.len() - i,
        {
            assert(ids@.take(i + 1).drop_last() == ids@.take(i as int));
            if !holds(&out, ids[i]) {
                let ghost before = out@;
                out.push(ids[i]);
                assert forall|a: int, b: int|
                    0 <= a < out@.len() && 0 <= b < out@.len() && a != b implies out@[a]
                    != out@[b] by {
                    if a < before.len() {
                        assert(before.contains(before[a]));
                    }
                    if b < before.len() {
                        assert(before.contains(before[b]));
                    }
                }
            }
            i += 1;
        }
        assert(ids@.take(ids@.len() as int) == ids@);
        PlanResult { prototypes: out }
    }

    /// The identities of the prototypes. None occurs twice.
    pub fn prototypes(&self) -> (r: &Vec<PrototypeID>)
        ensures
            r@ == self@,
            self@.no_duplicates(),
    {
        proof {
            use_type_invariant(self);
        }
        &self.prototypes
    }

    /// The actions that lead from this result to `other`.
    pub fn actions_to(&self, other: &PlanResult) -> (r: ActionGroups)
        ensures
            r@ == actions_between(self@, other@),
    {
        let gone = entries_without(&self.prototypes, &other.prototypes);
        let added = entries_without(&other.prototypes, &self.prototypes);
        let mut destruct: Vec<Action> = Vec::new();
        let mut i: usize = 0;
        while i < gone.len()
            invariant
                i <= gone@.len(),
                destruct@ == gone@.take(i as int).map_values(|id: PrototypeID| Action::Destruct(id)),
            decreases gone@.len() - i,
        {
            destruct.push(Action::Destruct(gone[i]));
            assert(destruct@ =~= gone@.take(i + 1).map_values(
                |id: PrototypeID| Action::Destruct(id),
            ));
            i += 1;
        }
        assert(gone@.take(gone@.len() as int) == gone@);
        let mut construct: Vec<Action> = Vec::new();
        let mut k: usize = 0;
        while k < added.len()
            invariant
                k <= added@.len(),
                construct@ == added@.take(k as int).map_values(
                    |id: PrototypeID| Action::Construct(id),
                ),
            decreases added@.len() - k,
        {
            construct.push(Action::Construct(added[k]));
            assert(construct@ =~= added@.take(k + 1).map_values(
                |id: PrototypeID| Action::Construct(id),
            ));
            k += 1;
        }
        assert(added@.take(added@.len() as int) == added@);
        let mut groups: Vec<Vec<Action>> = Vec::new();
        groups.push(destruct);
        groups.push(construct);
        let r = ActionGroups(groups);
        assert(r@ =~= actions_between(self@, other@));
        r
    }

    /// What an observer knows once it holds this result.
    pub fn known_state(&self) -> (r: KnownPlanResultState)
        ensures
            r@ == self@,
    {
        KnownPlanResultState { known_prototype_ids: copy_ids(&self.prototypes) }
    }

    /// What an observer who knows `known` has to be sent.
    pub fn update_for(&self, known: &KnownPlanResultState) -> (r: PlanResultUpdate)
        ensures
            r@ == update_between(self@, known@),
    {
        let new_prototypes = entries_without(&self.prototypes, &known.known_prototype_ids);
        let dropped_prototypes = entries_without(&known.known_prototype_ids, &self.prototypes);
        if new_prototypes.len() == 0 && dropped_prototypes.len() == 0 {
            PlanResultUpdate::Unchanged
        } else if new_prototypes.len() == self.prototypes.len() {
            PlanResultUpdate::ChangedCompletely(self.clone())
        } else {
            PlanResultUpdate::Changed { new_prototypes, dropped_prototypes }
        }
    }
}

} // verus!
