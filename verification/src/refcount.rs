use vstd::prelude::*;

verus! {

/// Counts above this many references make taking another one fail.
pub const MAX_REFERENCES: usize = usize::MAX / 2;

/// What taking one more reference to a shared object amounts to.
#[derive(PartialEq, Eq, Structural)]
pub enum CloneOutcome {
    Shared,
    TooManyReferences,
}

/// What dropping one reference amounts to.
#[derive(PartialEq, Eq, Structural)]
pub enum ReleaseOutcome {
    /// Other references remain.
    Keep,
    /// This was the last reference: the object is destroyed.
    Destroy,
}

/// The outcome of a clone, given the count before it.
pub fn clone_outcome(previous: usize) -> (outcome: CloneOutcome)
    ensures
        outcome == (if previous > MAX_REFERENCES {
            CloneOutcome::TooManyReferences
        } else {
            CloneOutcome::Shared
        }),
{
    if previous > usize::MAX / 2 {
        CloneOutcome::TooManyReferences
    } else {
        CloneOutcome::Shared
    }
}

/// The outcome of a drop, given the count before it.
pub fn release_outcome(previous: usize) -> (outcome: ReleaseOutcome)
    ensures
        outcome == (if previous == 1 { ReleaseOutcome::Destroy } else { ReleaseOutcome::Keep }),
{
    if previous == 1 {
        ReleaseOutcome::Destroy
    } else {
        ReleaseOutcome::Keep
    }
}

/// The reference count of a shared object: it starts with one reference,
/// each clone adds one and each drop removes one.
pub struct RefCount {
    pub count: usize,
}

impl RefCount {
    /// A count with the one reference its creator holds.
    pub fn new() -> (rc: Self)
        ensures
            rc.count == 1,
    {
        RefCount { count: 1 }
    }

    /// Takes another reference.
    pub fn acquire(&mut self) -> (outcome: CloneOutcome)
        requires
            old(self).count < usize::MAX,
        ensures
            final(self).count == old(self).count + 1,
            outcome == (if old(self).count > MAX_REFERENCES {
                CloneOutcome::TooManyReferences
            } else {
                CloneOutcome::Shared
            }),
    {
        let outcome = clone_outcome(self.count);
        self.count = self.count + 1;
        outcome
    }

    /// Drops a reference; the object is destroyed when it was the last.
    pub fn release(&mut self) -> (outcome: ReleaseOutcome)
        requires
            old(self).count > 0,
        ensures
            final(self).count == old(self).count - 1,
            (outcome == ReleaseOutcome::Destroy) == (final(self).count == 0),
    {
        let outcome = release_outcome(self.count);
        self.count = self.count - 1;
        outcome
    }
}

/// The count before event `k` of a history of clones (`true`) and drops
/// (`false`) of a freshly created object.
pub open spec fn count_before(events: Seq<bool>, k: int) -> int
    decreases k,
{
    if k <= 0 {
        1
    } else {
        count_before(events, k - 1) + if events[k - 1] { 1int } else { -1int }
    }
}

/// Every event is made through a reference that is still held.
pub open spec fn history_valid(events: Seq<bool>) -> bool {
    forall|k: int| 0 <= k < events.len() ==> #[trigger] count_before(events, k) >= 1
}

/// Event `k` destroys the object: it drops the last reference.
pub open spec fn destroys_at(events: Seq<bool>, k: int) -> bool {
    !events[k] && count_before(events, k) == 1
}

/// In any history of clones and drops, the object is destroyed at most once:
/// only by the last event, and exactly when no reference is left at the end.
pub proof fn lemma_destroyed_once_by_last_release(events: Seq<bool>)
    requires
        history_valid(events),
    ensures
        forall|k: int| 0 <= k < events.len() && #[trigger] destroys_at(events, k) ==> k == events.len() - 1,
        events.len() > 0 ==> (destroys_at(events, events.len() - 1) <==> count_before(
            events,
            events.len() as int,
        ) == 0),
        count_before(events, events.len() as int) >= 0,
{
    assert forall|k: int| 0 <= k < events.len() && #[trigger] destroys_at(events, k) implies k == events.len() - 1 by {
        if k < events.len() - 1 {
            assert(count_before(events, k + 1) == 0);
            assert(count_before(events, k + 1) >= 1);
        }
    }
    if events.len() > 0 {
        let last = events.len() - 1;
        assert(count_before(events, last) >= 1);
        assert(count_before(events, events.len() as int) == count_before(events, last) + if events[last] {
            1int
        } else {
            -1int
        });
    }
}

/// One step of releasing a reference to an object created from a parent
/// (a command buffer from its pool, a pool from its device).
#[derive(PartialEq, Eq, Structural)]
pub enum ReleaseStep {
    /// Free the object with the parent it was created from.
    FreeChild,
    /// Let go of the references to the parents that the object holds.
    ReleaseParents,
}

/// The steps of dropping a reference, given the count before the drop: the
/// last reference frees the object and only then lets go of its parents.
pub open spec fn spec_child_release_steps(previous: int) -> Seq<ReleaseStep> {
    if previous == 1 {
        seq![ReleaseStep::FreeChild, ReleaseStep::ReleaseParents]
    } else {
        seq![]
    }
}

/// The steps of dropping a reference whose count was `previous` before the drop.
pub fn child_release_steps(previous: usize) -> (steps: Vec<ReleaseStep>)
    ensures
        steps@ == spec_child_release_steps(previous as int),
{
    let mut steps: Vec<ReleaseStep> = Vec::new();
    if previous == 1 {
        steps.push(ReleaseStep::FreeChild);
        steps.push(ReleaseStep::ReleaseParents);
        assert(steps@ =~= seq![ReleaseStep::FreeChild, ReleaseStep::ReleaseParents]);
    } else {
        assert(steps@ =~= Seq::<ReleaseStep>::empty());
    }
    steps
}

/// A child object and the parent it was created from: the references to
/// each, and whether the child has been freed and the parent destroyed. The
/// parent's count includes the one reference that the living child holds.
pub struct OwnedPair {
    pub child_count: int,
    pub parent_count: int,
    pub child_freed: bool,
    pub parent_destroyed: bool,
}

/// What happens to a child and its parent: references to either are cloned
/// or dropped by their other holders.
pub enum PairEvent {
    CloneChild,
    DropChild,
    CloneParent,
    DropParent,
}

/// Just after the child's creation, with `holders` other references to the parent.
pub open spec fn pair_created(holders: nat) -> OwnedPair {
    OwnedPair { child_count: 1, parent_count: (holders + 1) as int, child_freed: false, parent_destroyed: false }
}

/// The references to the parent held by others than the child.
pub open spec fn other_parent_holders(s: OwnedPair) -> int {
    s.parent_count - if s.child_freed { 0int } else { 1int }
}

/// Releasing one reference to the parent, destroying it with the last.
pub open spec fn release_parent(s: OwnedPair) -> OwnedPair {
    OwnedPair {
        parent_count: s.parent_count - 1,
        parent_destroyed: s.parent_destroyed || s.parent_count == 1,
        ..s
    }
}

pub open spec fn apply_release_step(s: OwnedPair, step: ReleaseStep) -> OwnedPair {
    match step {
        ReleaseStep::FreeChild => OwnedPair { child_freed: true, ..s },
        ReleaseStep::ReleaseParents => release_parent(s),
    }
}

/// The state after the steps, in order.
pub open spec fn apply_release_steps(s: OwnedPair, steps: Seq<ReleaseStep>) -> OwnedPair
    decreases steps.len(),
{
    if steps.len() == 0 {
        s
    } else {
        apply_release_steps(apply_release_step(s, steps[0]), steps.drop_first())
    }
}

/// An event can happen only through a reference that is still held.
pub open spec fn pair_event_allowed(s: OwnedPair, event: PairEvent) -> bool {
    match event {
        PairEvent::CloneChild => s.child_count >= 1,
        PairEvent::DropChild => s.child_count >= 1,
        PairEvent::CloneParent => other_parent_holders(s) >= 1,
        PairEvent::DropParent => other_parent_holders(s) >= 1,
    }
}

/// The state after an event; a dropped child reference takes the release steps.
pub open spec fn pair_step(s: OwnedPair, event: PairEvent) -> OwnedPair {
    match event {
        PairEvent::CloneChild => OwnedPair { child_count: s.child_count + 1, ..s },
        PairEvent::DropChild => apply_release_steps(
            OwnedPair { child_count: s.child_count - 1, ..s },
            spec_child_release_steps(s.child_count),
        ),
        PairEvent::CloneParent => OwnedPair { parent_count: s.parent_count + 1, ..s },
        PairEvent::DropParent => release_parent(s),
    }
}

/// The state before event `k`.
pub open spec fn pair_state(events: Seq<PairEvent>, holders: nat, k: int) -> OwnedPair
    decreases k,
{
    if k <= 0 {
        pair_created(holders)
    } else {
        pair_step(pair_state(events, holders, k - 1), events[k - 1])
    }
}

pub open spec fn pair_history_valid(events: Seq<PairEvent>, holders: nat) -> bool {
    forall|k: int| 0 <= k < events.len() ==> #[trigger] pair_event_allowed(pair_state(events, holders, k), events[k])
}

/// The parent outlives its child: while the child is alive the parent has a
/// reference and is not destroyed, and once destroyed the child is freed.
pub open spec fn parent_outlives_child(s: OwnedPair) -> bool {
    &&& s.child_count >= 0 && s.parent_count >= 0
    &&& (s.child_freed <==> s.child_count == 0)
    &&& !s.child_freed ==> s.parent_count >= 1
    &&& (s.parent_destroyed <==> s.parent_count == 0)
    &&& s.parent_destroyed ==> s.child_freed
}

/// Event `k` frees the child.
pub open spec fn frees_child_at(events: Seq<PairEvent>, holders: nat, k: int) -> bool {
    !pair_state(events, holders, k).child_freed && pair_state(events, holders, k + 1).child_freed
}

/// The last release frees the child, then releases the parent.
proof fn lemma_last_release_steps(t: OwnedPair)
    ensures
        apply_release_steps(t, spec_child_release_steps(1)) == release_parent(OwnedPair { child_freed: true, ..t }),
{
    let steps = spec_child_release_steps(1);
    let rest = steps.drop_first();
    assert(rest =~= seq![ReleaseStep::ReleaseParents]);
    assert(rest.drop_first() =~= Seq::<ReleaseStep>::empty());
    let u = apply_release_step(t, steps[0]);
    assert(apply_release_steps(t, steps) == apply_release_steps(u, rest));
    assert(apply_release_steps(u, rest) == apply_release_steps(apply_release_step(u, rest[0]), rest.drop_first()));
}

proof fn lemma_pair_step_keeps(s: OwnedPair, event: PairEvent)
    requires
        parent_outlives_child(s),
        pair_event_allowed(s, event),
    ensures
        parent_outlives_child(pair_step(s, event)),
        s.child_freed ==> pair_step(s, event).child_freed,
        s.parent_destroyed ==> pair_step(s, event).parent_destroyed,
{
    match event {
        PairEvent::DropChild => {
            let t = OwnedPair { child_count: s.child_count - 1, ..s };
            if s.child_count == 1 {
                lemma_last_release_steps(t);
            } else {
                assert(spec_child_release_steps(s.child_count) =~= Seq::<ReleaseStep>::empty());
            }
        },
        _ => {},
    }
}

/// When a child created from a parent is cloned and dropped in any order,
/// and the parent's other references too, the child is freed exactly at the
/// drop of its last reference, before the parent lets go of it; the parent
/// is never destroyed while the child lives, and is destroyed (once its own
/// last reference goes) only after the child was freed.
pub proof fn lemma_parent_outlives_child(events: Seq<PairEvent>, holders: nat)
    requires
        pair_history_valid(events, holders),
    ensures
        forall|k: int| 0 <= k <= events.len() ==> #[trigger] parent_outlives_child(pair_state(events, holders, k)),
        forall|k: int|
            0 <= k < events.len() ==> (#[trigger] frees_child_at(events, holders, k) <==> (
            events[k] is DropChild && pair_state(events, holders, k).child_count == 1)),
        forall|k1: int, k2: int|
            0 <= k1 < k2 < events.len() && #[trigger] frees_child_at(events, holders, k1) ==> !#[trigger] frees_child_at(
                events,
                holders,
                k2,
            ),
    decreases events.len(),
{
    if events.len() > 0 {
        let prefix = events.drop_last();
        assert forall|k: int| 0 <= k <= prefix.len() implies #[trigger] pair_state(prefix, holders, k)
            == pair_state(events, holders, k) by {
            lemma_pair_state_prefix(events, holders, k);
        }
        assert(pair_history_valid(prefix, holders)) by {
            assert forall|k: int| 0 <= k < prefix.len() implies #[trigger] pair_event_allowed(
                pair_state(prefix, holders, k),
                prefix[k],
            ) by {
                assert(pair_event_allowed(pair_state(events, holders, k), events[k]));
            }
        }
        lemma_parent_outlives_child(prefix, holders);
        let last = events.len() - 1;
        assert(parent_outlives_child(pair_state(prefix, holders, last)));
        assert(pair_event_allowed(pair_state(events, holders, last), events[last]));
        lemma_pair_step_keeps(pair_state(events, holders, last), events[last]);
        assert(pair_state(events, holders, last + 1) == pair_step(
            pair_state(events, holders, last),
            events[last],
        ));
        assert forall|k: int| 0 <= k <= events.len() implies #[trigger] parent_outlives_child(
            pair_state(events, holders, k),
        ) by {
            if k < events.len() {
                assert(parent_outlives_child(pair_state(prefix, holders, k)));
            }
        }
        assert forall|k: int| 0 <= k < events.len() implies (#[trigger] frees_child_at(events, holders, k) <==> (
        events[k] is DropChild && pair_state(events, holders, k).child_count == 1)) by {
            let s = pair_state(events, holders, k);
            assert(parent_outlives_child(s));
            assert(pair_event_allowed(s, events[k]));
            lemma_pair_step_keeps(s, events[k]);
            assert(pair_state(events, holders, k + 1) == pair_step(s, events[k]));
            lemma_free_step(s, events[k]);
        }
        assert forall|k1: int, k2: int|
            0 <= k1 < k2 < events.len() && #[trigger] frees_child_at(events, holders, k1) implies !#[trigger] frees_child_at(
                events,
                holders,
                k2,
            ) by {
            lemma_freed_stays(events, holders, k1 + 1, k2);
        }
    } else {
        assert(parent_outlives_child(pair_state(events, holders, 0)));
    }
}

/// Which steps free the child.
proof fn lemma_free_step(s: OwnedPair, event: PairEvent)
    requires
        parent_outlives_child(s),
        pair_event_allowed(s, event),
    ensures
        (!s.child_freed && pair_step(s, event).child_freed) <==> (event is DropChild && s.child_count == 1),
{
    match event {
        PairEvent::DropChild => {
            let t = OwnedPair { child_count: s.child_count - 1, ..s };
            if s.child_count == 1 {
                lemma_last_release_steps(t);
            } else {
                assert(spec_child_release_steps(s.child_count) =~= Seq::<ReleaseStep>::empty());
            }
        },
        _ => {},
    }
}

/// The state before event `k` depends only on the events before it.
proof fn lemma_pair_state_prefix(events: Seq<PairEvent>, holders: nat, k: int)
    requires
        events.len() > 0,
        0 <= k <= events.len() - 1,
    ensures
        pair_state(events.drop_last(), holders, k) == pair_state(events, holders, k),
    decreases k,
{
    if k > 0 {
        lemma_pair_state_prefix(events, holders, k - 1);
    }
}

/// Once freed, the child stays freed.
proof fn lemma_freed_stays(events: Seq<PairEvent>, holders: nat, i: int, j: int)
    requires
        pair_history_valid(events, holders),
        forall|k: int| 0 <= k <= events.len() ==> #[trigger] parent_outlives_child(pair_state(events, holders, k)),
        0 <= i <= j <= events.len(),
        pair_state(events, holders, i).child_freed,
    ensures
        pair_state(events, holders, j).child_freed,
    decreases j - i,
{
    if i < j {
        let s = pair_state(events, holders, i);
        assert(parent_outlives_child(s));
        assert(pair_event_allowed(s, events[i]));
        lemma_pair_step_keeps(s, events[i]);
        assert(pair_state(events, holders, i + 1) == pair_step(s, events[i]));
        lemma_freed_stays(events, holders, i + 1, j);
    }
}

} // verus!
