//! The current point as ambient state: entering a child makes it current for as long as the
//! child runs, and the one before is current again afterwards.

use crate::cells::cell_content;
use crate::cells::cell_new;
use crate::cells::cell_try_borrow_mut;
use crate::hashing::slot_bytes;
use crate::id::child_id;
use crate::id::Callsite;
use crate::id::Id;
use crate::point::counts_after_child;
use crate::point::default_slot;
use crate::point::Point;
use std::cell::RefCell;
use std::hash::Hash;
use std::rc::Rc;
use vstd::prelude::*;

verus! {

/// `illicit::get`: the cell that the innermost enclosing [`enter_cell`] of this thread
/// offered, if there is one. It depends on where the call is made, so nothing is claimed
/// of it.
#[verifier::external_body]
fn ambient_cell() -> (cell: Option<Rc<RefCell<Point>>>) {
    match illicit::get::<Rc<RefCell<Point>>>() {
        Ok(found) => Some(Rc::clone(&found)),
        Err(_) => None,
    }
}

/// `illicit::Layer::new`, `offer` and `enter`: runs `op` once, with `cell` as the ambient
/// cell while it runs, and returns what `op` returned. The ambient cell of before is back
/// when `enter` returns or unwinds.
#[verifier::external_body]
fn enter_cell<R, F: FnOnce() -> R>(cell: Rc<RefCell<Point>>, op: F) -> (out: R)
    requires
        op.requires(()),
    ensures
        op.ensures((), out),
{
    illicit::Layer::new().offer(cell).enter(op)
}

/// The bytes of the slot of a child at `callsite`: those given, or, where none are given,
/// the default slot of a parent that had the counts `before` when the child was entered.
pub open spec fn child_slot(
    before: Map<Callsite, nat>,
    callsite: Callsite,
    slot: Option<Vec<u8>>,
) -> Seq<u8> {
    match slot {
        Some(bytes) => bytes@,
        None => default_slot(counts_after_child(before, callsite), callsite),
    }
}

/// The point of a child of `parent` at `callsite`, which is counted there. The child's slot
/// is `slot`, or the default one where that is `None`.
fn child_of(parent: &mut Point, callsite: Callsite, slot: Option<Vec<u8>>) -> (child: Point)
    ensures
        final(parent)@.id == old(parent)@.id,
        final(parent)@.callsite == old(parent)@.callsite,
        final(parent)@.counts == counts_after_child(old(parent)@.counts, callsite),
        child@.callsite == callsite,
        child@.counts == Map::total(|callsite: Callsite| 0nat),
        child@.id@ == child_id(
            old(parent)@.id@,
            callsite@,
            child_slot(old(parent)@.counts, callsite, slot),
        ),
{
    match slot {
        Some(bytes) => parent.child_in_slot(callsite, bytes.as_slice()),
        None => parent.child(callsite),
    }
}

/// The point of a child at `callsite` of the point in `cell`, which is counted there, or of
/// a root that has had no children where there is no cell. The child's slot is `slot`, or
/// the default one where that is `None`. A cell is borrowed here and in [`copy_of`] only,
/// and no code of the caller runs while it is: a borrow that is refused is taken like a
/// cell that is not there.
fn child_in(cell: Option<Rc<RefCell<Point>>>, callsite: Callsite, slot: Option<Vec<u8>>) -> (child:
    Point)
    ensures
        child@.callsite == callsite,
        child@.counts == Map::total(|callsite: Callsite| 0nat),
        exists|parent: u64, before: Map<Callsite, nat>|
            child@.id@ == #[trigger] child_id(
                parent,
                callsite@,
                child_slot(before, callsite, slot),
            ),
        cell.is_none() ==> child@.id@ == child_id(
            0,
            callsite@,
            child_slot(Map::total(|callsite: Callsite| 0nat), callsite, slot),
        ),
{
    match cell {
        Some(cell) => match cell_try_borrow_mut(&cell) {
            Some(mut borrow) => {
                let parent = cell_content(&mut borrow);
                let ghost id = parent@.id@;
                let ghost before = parent@.counts;
                let child = child_of(parent, callsite, slot);
                assert(child@.id@ == child_id(id, callsite@, child_slot(before, callsite, slot)));
                return child;
            },
            None => {},
        },
        None => {},
    }
    let mut root = Point::root();
    let child = child_of(&mut root, callsite, slot);
    assert(child@.id@ == child_id(
        0,
        callsite@,
        child_slot(Map::total(|callsite: Callsite| 0nat), callsite, slot),
    ));
    child
}

/// The point of a child of the current point at `callsite`, which is counted there. The
/// child's slot is `slot`, or the default one where that is `None`. Where no point is
/// ambient, the current point is a root that has had no children. Which point is current
/// depends on where the call is made: the child is entered at `callsite`, has had no
/// children, and has the identity of a child in that slot of some parent.
fn child_of_current(callsite: Callsite, slot: Option<Vec<u8>>) -> (child: Point)
    ensures
        child@.callsite == callsite,
        child@.counts == Map::total(|callsite: Callsite| 0nat),
        exists|parent: u64, before: Map<Callsite, nat>|
            child@.id@ == #[trigger] child_id(
                parent,
                callsite@,
                child_slot(before, callsite, slot),
            ),
{
    child_in(ambient_cell(), callsite, slot)
}

/// A copy of the point in `cell`, or of a root that has had no children where there is no
/// cell.
fn copy_of(cell: Option<Rc<RefCell<Point>>>) -> (copy: Point)
    ensures
        cell.is_none() ==> {
            &&& copy@.id@ == 0
            &&& copy@.callsite@ == 0
            &&& copy@.counts == Map::total(|callsite: Callsite| 0nat)
        },
{
    match cell {
        Some(cell) => match cell_try_borrow_mut(&cell) {
            Some(mut borrow) => {
                return cell_content(&mut borrow).snapshot();
            },
            None => {},
        },
        None => {},
    }
    Point::root()
}

/// A copy of the current point: of the ambient one, or of a root that has had no children
/// where no point is ambient.
fn copy_of_current() -> Point {
    copy_of(ambient_cell())
}

/// Enters a child of the current point at `callsite` and runs `op` in it. The child's slot
/// is `slot`, or the default one where that is `None`.
fn enter_child_of_current<R, F: FnOnce() -> R>(
    callsite: Callsite,
    slot: Option<Vec<u8>>,
    op: F,
) -> (out: R)
    requires
        op.requires(()),
    ensures
        op.ensures((), out),
{
    let child = child_of_current(callsite, slot);
    enter_cell(Rc::new(cell_new(child)), op)
}

/// Runs `op` in a child of the current point, entered at `callsite` in the slot that `slot`
/// hashes to. `op` runs exactly once, and what it returns is returned.
pub fn call_inner<R>(callsite: Callsite, slot: impl Hash, op: impl FnOnce() -> R) -> (out: R)
    requires
        op.requires(()),
    ensures
        op.ensures((), out),
{
    let bytes = slot_bytes(&slot);
    enter_child_of_current(callsite, Some(bytes), op)
}

/// Runs `op` in a child of the current point, entered at `callsite` in the default slot:
/// the number of children that the point has had so far at the callsite, this one
/// included. `op` runs exactly once, and what it returns is returned.
pub fn call_at<R>(callsite: Callsite, op: impl FnOnce() -> R) -> (out: R)
    requires
        op.requires(()),
    ensures
        op.ensures((), out),
{
    enter_child_of_current(callsite, None, op)
}

/// Runs `op` in a child of the current point in the default slot, the number of children
/// that the point has had so far at the callsite, this one included. The callsite is
/// [`Callsite::unlocated`]. `op` runs exactly once, and what it returns is returned.
pub fn call<R>(op: impl FnOnce() -> R) -> (out: R)
    requires
        op.requires(()),
    ensures
        op.ensures((), out),
{
    call_at(Callsite::unlocated(), op)
}

/// Runs `op` in a child of the current point in the slot that `slot` hashes to. The
/// callsite is [`Callsite::unlocated`]. `op` runs exactly once, and what it returns is
/// returned.
pub fn call_in_slot<R>(slot: impl Hash, op: impl FnOnce() -> R) -> (out: R)
    requires
        op.requires(()),
    ensures
        op.ensures((), out),
{
    call_inner(Callsite::unlocated(), slot, op)
}

impl Id {
    /// Returns the `Id` for the current scope in the call topology: that of the current
    /// point, which is the root's where no child has been entered.
    pub fn current() -> Id {
        let read = |point: &Point| -> (id: Id)
            ensures
                id == point@.id,
            { point.id() };
        Point::unstable_with_current(read)
    }
}

impl Point {
    /// Mark a child Point in the topology: counts one more child at `callsite`, and runs
    /// `child` once with the point of that child as the current one. The child's slot is
    /// what `slot` hashes to.
    pub fn unstable_enter_child<R>(
        &mut self,
        callsite: Callsite,
        slot: impl Hash,
        child: impl FnOnce() -> R,
    ) -> (out: R)
        requires
            child.requires(()),
        ensures
            child.ensures((), out),
            final(self)@.id == old(self)@.id,
            final(self)@.callsite == old(self)@.callsite,
            final(self)@.counts == counts_after_child(old(self)@.counts, callsite),
    {
        let bytes = slot_bytes(&slot);
        let child_point = self.child_in_slot(callsite, bytes.as_slice());
        enter_cell(Rc::new(cell_new(child_point)), child)
    }

    /// Runs the provided closure with access to the current [`Point`], as it is when the
    /// closure starts. Where no child has been entered, that is a root point.
    pub fn unstable_with_current<Out>(op: impl FnOnce(&Point) -> Out) -> (out: Out)
        requires
            forall|point: Point| op.requires((&point,)),
        ensures
            exists|point: Point| op.ensures((&point,), out),
    {
        let copy = copy_of_current();
        op(&copy)
    }
}

} // verus!
