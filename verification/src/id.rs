//! Callsites and the identities derived from them.

use crate::hashing::fnv1a_fold;
use crate::hashing::fnv1a_of_parts;
use crate::hashing::u64_le_bytes;
use crate::hashing::u64_to_le_bytes;
use crate::hashing::FNV_OFFSET_BASIS;
use vstd::prelude::*;

verus! {

/// A token for one lexical call location. Two callsites are the same location exactly when
/// their tokens are equal.
#[derive(Clone, Copy, Debug, PartialEq, Eq, Hash, Structural)]
pub struct Callsite {
    location: usize,
}

impl View for Callsite {
    type V = usize;

    closed spec fn view(&self) -> usize {
        self.location
    }
}

impl Callsite {
    /// The callsite whose token is `location`.
    pub fn new(location: usize) -> (callsite: Callsite)
        ensures
            callsite@ == location,
    {
        Callsite { location }
    }

    /// The token this callsite was made from.
    pub fn location(&self) -> (location: usize)
        ensures
            location == self@,
    {
        self.location
    }

    /// The callsite of a root point. No call is made there: its token is 0, which no address
    /// of a location is.
    pub fn root() -> (callsite: Callsite)
        ensures
            callsite@ == 0,
    {
        Callsite { location: 0 }
    }

    /// The callsite shared by the calls that cannot name a location of their own. Its token
    /// is 1, which is neither the root's nor the address of an aligned location.
    pub fn unlocated() -> (callsite: Callsite)
        ensures
            callsite@ == 1,
    {
        Callsite { location: 1 }
    }

    /// Two callsites with the same token are the same callsite.
    pub proof fn lemma_view_injective(a: Callsite, b: Callsite)
        requires
            a@ == b@,
        ensures
            a == b,
    {
    }
}

/// Identifies one activation in the call topology: the hash of the parent's identity, the
/// callsite entered, and the slot that tells apart the activations of one callsite within
/// one parent. It carries no order.
#[derive(Clone, Copy, Debug, PartialEq, Eq, Hash, Structural)]
pub struct Id(u64);

impl View for Id {
    type V = u64;

    closed spec fn view(&self) -> u64 {
        self.0
    }
}

/// The bytes hashed for a child: the number of the parent's identity and the callsite's
/// token, each as eight bytes, least significant first, followed by the slot's bytes.
pub open spec fn child_bytes(parent: u64, callsite: usize, slot: Seq<u8>) -> Seq<u8> {
    u64_le_bytes(parent) + u64_le_bytes(callsite as u64) + slot
}

/// The number of the identity of the child that the scope numbered `parent` has at the
/// callsite with token `callsite` in `slot`: the FNV-1a hash of [`child_bytes`].
pub open spec fn child_id(parent: u64, callsite: usize, slot: Seq<u8>) -> u64 {
    fnv1a_fold(FNV_OFFSET_BASIS, child_bytes(parent, callsite, slot))
}

impl Id {
    /// The identity of a root point.
    pub fn root() -> (id: Id)
        ensures
            id@ == 0,
    {
        Id(0)
    }

    /// The number behind this identity.
    pub fn to_u64(&self) -> (value: u64)
        ensures
            value == self@,
    {
        self.0
    }

    /// The identity of the child of `self` entered at `callsite` in the slot whose bytes are
    /// `slot`.
    pub fn child(self, callsite: Callsite, slot: &[u8]) -> (id: Id)
        ensures
            id@ == child_id(self@, callsite@, slot@),
    {
        let parent = u64_to_le_bytes(self.0);
        let site = u64_to_le_bytes(callsite.location as u64);
        Id(fnv1a_of_parts(parent.as_slice(), site.as_slice(), slot))
    }

    /// Two identities with the same number are the same identity.
    pub proof fn lemma_view_injective(a: Id, b: Id)
        requires
            a@ == b@,
        ensures
            a == b,
    {
    }
}

} // verus!
