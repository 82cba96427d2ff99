//! The record of one active scope: its identity, the callsite that made it, and how many
//! children it has had at each callsite.

use crate::hashing::u32_le_bytes;
use crate::hashing::u32_to_le_bytes;
use crate::id::child_id;
use crate::id::Callsite;
use crate::id::Id;
use vstd::prelude::*;
use vstd::std_specs::cmp::PartialEqSpecImpl;

verus! {

/// The count that a table of entries records for `callsite`: that of the first entry for
/// it, and 0 where there is none.
pub open spec fn count_in(entries: Seq<(Callsite, u32)>, callsite: Callsite) -> nat
    decreases entries.len(),
{
    if entries.len() == 0 {
        0
    } else if entries[0].0 == callsite {
        entries[0].1 as nat
    } else {
        count_in(entries.drop_first(), callsite)
    }
}

/// Replacing the count of the first entry for a callsite changes that callsite's count and
/// no other.
proof fn lemma_count_in_update(
    entries: Seq<(Callsite, u32)>,
    index: int,
    callsite: Callsite,
    count: u32,
    other: Callsite,
)
    requires
        0 <= index < entries.len(),
        entries[index].0 == callsite,
        forall|j: int| 0 <= j < index ==> (#[trigger] entries[j]).0 != callsite,
    ensures
        count_in(entries, callsite) == entries[index].1,
        count_in(entries.update(index, (callsite, count)), other) == if other == callsite {
            count as nat
        } else {
            count_in(entries, other)
        },
    decreases index,
{
    let updated = entries.update(index, (callsite, count));
    if index == 0 {
        assert(updated.drop_first() =~= entries.drop_first());
    } else {
        let rest = entries.drop_first();
        assert(rest[index - 1] == entries[index]);
        assert forall|j: int| 0 <= j < index - 1 implies (#[trigger] rest[j]).0 != callsite by {
            assert(rest[j] == entries[j + 1]);
        }
        lemma_count_in_update(rest, index - 1, callsite, count, other);
        assert(updated.drop_first() =~= rest.update(index - 1, (callsite, count)));
        assert(updated[0] == entries[0]);
    }
}

/// A callsite without an entry counts 0, and appending an entry for it changes that
/// callsite's count and no other.
proof fn lemma_count_in_push(
    entries: Seq<(Callsite, u32)>,
    callsite: Callsite,
    count: u32,
    other: Callsite,
)
    requires
        forall|j: int| 0 <= j < entries.len() ==> (#[trigger] entries[j]).0 != callsite,
    ensures
        count_in(entries, callsite) == 0,
        count_in(entries.push((callsite, count)), other) == if other == callsite {
            count as nat
        } else {
            count_in(entries, other)
        },
    decreases entries.len(),
{
    let pushed = entries.push((callsite, count));
    if entries.len() == 0 {
        assert(pushed.drop_first() =~= Seq::<(Callsite, u32)>::empty());
        assert(count_in(pushed.drop_first(), other) == 0);
    } else {
        let rest = entries.drop_first();
        assert(entries[0].0 != callsite);
        assert forall|j: int| 0 <= j < rest.len() implies (#[trigger] rest[j]).0 != callsite by {
            assert(rest[j] == entries[j + 1]);
        }
        lemma_count_in_push(rest, callsite, count, other);
        assert(pushed.drop_first() =~= rest.push((callsite, count)));
        assert(pushed[0] == entries[0]);
    }
}

/// What a [`Point`] stands for.
pub struct PointView {
    /// The identity of the scope.
    pub id: Id,
    /// The callsite that the scope was entered at.
    pub callsite: Callsite,
    /// For every callsite, how many children the scope has had there.
    pub counts: Map<Callsite, nat>,
}

/// The counts after one more child at `callsite`. A count that has reached `u32::MAX` stays
/// there.
pub open spec fn counts_after_child(counts: Map<Callsite, nat>, callsite: Callsite) -> Map<
    Callsite,
    nat,
> {
    if counts[callsite] < u32::MAX {
        counts.insert(callsite, counts[callsite] + 1)
    } else {
        counts
    }
}

/// The slot of a child that was given none: the four bytes of the count that its callsite
/// has reached in the parent, least significant first.
pub open spec fn default_slot(counts: Map<Callsite, nat>, callsite: Callsite) -> Seq<u8> {
    u32_le_bytes(counts[callsite] as u32)
}

/// The runtime record of one active scope.
#[derive(Debug)]
pub struct Point {
    id: Id,
    callsite: Callsite,
    /// Number of children entered at each callsite during this point, one entry a callsite.
    callsite_counts: Vec<(Callsite, u32)>,
}

impl View for Point {
    type V = PointView;

    closed spec fn view(&self) -> PointView {
        PointView {
            id: self.id,
            callsite: self.callsite,
            counts: Map::total(|callsite: Callsite| count_in(self.callsite_counts@, callsite)),
        }
    }
}

impl Point {
    /// A root point: identity 0, the root callsite, no children yet.
    pub fn root() -> (point: Point)
        ensures
            point@.id@ == 0,
            point@.callsite@ == 0,
            point@.counts == Map::total(|callsite: Callsite| 0nat),
    {
        let point = Point {
            id: Id::root(),
            callsite: Callsite::root(),
            callsite_counts: Vec::new(),
        };
        assert(point@.counts =~= Map::total(|callsite: Callsite| 0nat));
        point
    }

    /// The identity of this point.
    pub fn id(&self) -> (id: Id)
        ensures
            id == self@.id,
    {
        self.id
    }

    /// The callsite that this point was entered at.
    pub fn callsite(&self) -> (callsite: Callsite)
        ensures
            callsite == self@.callsite,
    {
        self.callsite
    }

    /// Every count fits the counter it is kept in.
    pub proof fn lemma_counts_bounded(&self, callsite: Callsite)
        ensures
            self@.counts.dom().contains(callsite),
            self@.counts[callsite] <= u32::MAX,
    {
        Self::lemma_count_in_bounded(self.callsite_counts@, callsite);
    }

    proof fn lemma_count_in_bounded(entries: Seq<(Callsite, u32)>, callsite: Callsite)
        ensures
            count_in(entries, callsite) <= u32::MAX,
        decreases entries.len(),
    {
        if entries.len() > 0 && entries[0].0 != callsite {
            Self::lemma_count_in_bounded(entries.drop_first(), callsite);
        }
    }

    /// The index of the first entry for `callsite`, or the number of entries where there is
    /// none.
    fn position(&self, callsite: Callsite) -> (index: usize)
        ensures
            index <= self.callsite_counts@.len(),
            forall|j: int| 0 <= j < index ==> (#[trigger] self.callsite_counts@[j]).0 != callsite,
            index < self.callsite_counts@.len() ==> self.callsite_counts@[index as int].0
                == callsite,
    {
        let mut index: usize = 0;
        while index < self.callsite_counts.len()
            invariant
                index <= self.callsite_counts@.len(),
                forall|j: int|
                    0 <= j < index ==> (#[trigger] self.callsite_counts@[j]).0 != callsite,
            decreases self.callsite_counts@.len() - index,
        {
            if self.callsite_counts[index].0 == callsite {
                return index;
            }
            index = index + 1;
        }
        index
    }

    /// Returns the number of times the provided [`Callsite`] has been entered within this
    /// point.
    pub fn unstable_callsite_count(&self, callsite: Callsite) -> (count: u32)
        ensures
            count == self@.counts[callsite],
    {
        let index = self.position(callsite);
        if index < self.callsite_counts.len() {
            proof {
                lemma_count_in_update(self.callsite_counts@, index as int, callsite, 0, callsite);
            }
            self.callsite_counts[index].1
        } else {
            proof {
                lemma_count_in_push(self.callsite_counts@, callsite, 0, callsite);
            }
            0
        }
    }

    /// Counts one more child at `callsite`.
    pub fn increment_count(&mut self, callsite: Callsite)
        requires
            old(self)@.counts[callsite] < u32::MAX,
        ensures
            final(self)@.id == old(self)@.id,
            final(self)@.callsite == old(self)@.callsite,
            final(self)@.counts == old(self)@.counts.insert(
                callsite,
                old(self)@.counts[callsite] + 1,
            ),
    {
        let index = self.position(callsite);
        let ghost before = self.callsite_counts@;
        if index < self.callsite_counts.len() {
            let count = self.callsite_counts[index].1;
            proof {
                lemma_count_in_update(before, index as int, callsite, 0, callsite);
            }
            self.callsite_counts.set(index, (callsite, count + 1));
            proof {
                assert forall|other: Callsite|
                    count_in(self.callsite_counts@, other) == if other == callsite {
                        (count + 1) as nat
                    } else {
                        count_in(before, other)
                    } by {
                    lemma_count_in_update(
                        before,
                        index as int,
                        callsite,
                        (count + 1) as u32,
                        other,
                    );
                }
            }
        } else {
            self.callsite_counts.push((callsite, 1));
            proof {
                lemma_count_in_push(before, callsite, 1, callsite);
                assert forall|other: Callsite|
                    count_in(self.callsite_counts@, other) == if other == callsite {
                        1nat
                    } else {
                        count_in(before, other)
                    } by {
                    lemma_count_in_push(before, callsite, 1, other);
                }
            }
        }
        assert(self@.counts =~= old(self)@.counts.insert(
            callsite,
            old(self)@.counts[callsite] + 1,
        ));
    }

    /// Counts one more child at `callsite` where the counter has room, and says what it then
    /// reads. Where the counter is full, nothing changes and `None` comes back.
    pub fn checked_increment_count(&mut self, callsite: Callsite) -> (count: Option<u32>)
        ensures
            final(self)@.id == old(self)@.id,
            final(self)@.callsite == old(self)@.callsite,
            final(self)@.counts == counts_after_child(old(self)@.counts, callsite),
            count.is_some() <==> old(self)@.counts[callsite] < u32::MAX,
            count matches Some(n) ==> n == old(self)@.counts[callsite] + 1,
    {
        let count = self.unstable_callsite_count(callsite);
        if count < u32::MAX {
            self.increment_count(callsite);
            Some(count + 1)
        } else {
            None
        }
    }

    /// Counts one more child at `callsite`, and returns the point of that child in the slot
    /// whose bytes are `slot`.
    pub fn child_in_slot(&mut self, callsite: Callsite, slot: &[u8]) -> (child: Point)
        ensures
            final(self)@.id == old(self)@.id,
            final(self)@.callsite == old(self)@.callsite,
            final(self)@.counts == counts_after_child(old(self)@.counts, callsite),
            child@.id@ == child_id(old(self)@.id@, callsite@, slot@),
            child@.callsite == callsite,
            child@.counts == Map::total(|callsite: Callsite| 0nat),
    {
        let _ = self.checked_increment_count(callsite);
        let child = Point {
            id: self.id.child(callsite, slot),
            callsite,
            callsite_counts: Vec::new(),
        };
        assert(child@.counts =~= Map::total(|callsite: Callsite| 0nat));
        child
    }

    /// Counts one more child at `callsite`, and returns the point of that child in the
    /// default slot: the count that the callsite has now reached.
    pub fn child(&mut self, callsite: Callsite) -> (child: Point)
        ensures
            final(self)@.id == old(self)@.id,
            final(self)@.callsite == old(self)@.callsite,
            final(self)@.counts == counts_after_child(old(self)@.counts, callsite),
            child@.id@ == child_id(
                old(self)@.id@,
                callsite@,
                default_slot(final(self)@.counts, callsite),
            ),
            child@.callsite == callsite,
            child@.counts == Map::total(|callsite: Callsite| 0nat),
    {
        let _ = self.checked_increment_count(callsite);
        let slot = u32_to_le_bytes(self.unstable_callsite_count(callsite));
        let child = Point {
            id: self.id.child(callsite, slot.as_slice()),
            callsite,
            callsite_counts: Vec::new(),
        };
        assert(child@.counts =~= Map::total(|callsite: Callsite| 0nat));
        child
    }

    /// A copy of this point as it is now.
    pub fn snapshot(&self) -> (copy: Point)
        ensures
            copy@ == self@,
    {
        let mut entries: Vec<(Callsite, u32)> = Vec::new();
        let mut index: usize = 0;
        while index < self.callsite_counts.len()
            invariant
                index <= self.callsite_counts@.len(),
                entries@ == self.callsite_counts@.subrange(0, index as int),
            decreases self.callsite_counts@.len() - index,
        {
            entries.push(self.callsite_counts[index]);
            index = index + 1;
            assert(entries@ =~= self.callsite_counts@.subrange(0, index as int));
        }
        assert(entries@ =~= self.callsite_counts@);
        Point { id: self.id, callsite: self.callsite, callsite_counts: entries }
    }
}

impl Default for Point {
    /// A root point.
    fn default() -> (point: Point)
        ensures
            point@.id@ == 0,
            point@.callsite@ == 0,
            point@.counts == Map::total(|callsite: Callsite| 0nat),
    {
        Point::root()
    }
}

impl PartialEq for Point {
    /// Two points are equal when they have the same identity.
    fn eq(&self, other: &Point) -> (equal: bool) {
        self.id == other.id
    }
}

impl PartialEqSpecImpl for Point {
    open spec fn obeys_eq_spec() -> bool {
        true
    }

    open spec fn eq_spec(&self, other: &Point) -> bool {
        self@.id == other@.id
    }
}

} // verus!
