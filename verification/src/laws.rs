//! What holds of identities and of the cache whatever the inputs: each law is stated over
//! the functions that the contracts of the library speak in.

use crate::cache::shard;
use crate::cache::shards_after_read;
use crate::cache::shards_after_store;
use crate::cache::shards_swept;
use crate::cache::Query;
use crate::cache::Shards;
use crate::hashing::byte_at;
use crate::hashing::lemma_bytes_determine;
use crate::hashing::lemma_fold_differs_in_a_window;
use crate::hashing::u32_le_bytes;
use crate::hashing::FNV_OFFSET_BASIS;
use crate::id::child_bytes;
use crate::id::child_id;
use crate::id::Callsite;
use crate::namespace::after_read;
use crate::namespace::hits;
use crate::namespace::Liveness;
use crate::point::counts_after_child;
use crate::point::default_slot;
use vstd::prelude::*;
use vstd::std_specs::cmp::PartialEqSpec;

verus! {

/// One step down the call topology: the callsite entered, by its token, and the slot.
pub struct Step {
    /// The token of the callsite.
    pub callsite: usize,
    /// The bytes of the slot.
    pub slot: Seq<u8>,
}

/// The number of the identity reached from the scope numbered `start` by entering the
/// steps of `path` one inside the other, first step first.
pub open spec fn id_at(start: u64, path: Seq<Step>) -> u64
    decreases path.len(),
{
    if path.len() == 0 {
        start
    } else {
        child_id(id_at(start, path.drop_last()), path.last().callsite, path.last().slot)
    }
}

/// The numbers of the identities of the children that one scope has at one callsite in the
/// given slots.
pub open spec fn ids_in_slots(parent: u64, callsite: usize, slots: Seq<Seq<u8>>) -> Set<u64> {
    Set::new(
        |id: u64|
            exists|i: int|
                0 <= i < slots.len() && id == child_id(parent, callsite, #[trigger] slots[i]),
    )
}

/// Identities are deterministic: two traversals that enter the same callsites in the same
/// slots, from the same start, reach the same identity at every depth.
pub proof fn law_same_steps_same_id(start: u64, first: Seq<Step>, second: Seq<Step>)
    requires
        first.len() == second.len(),
        forall|i: int|
            0 <= i < first.len() ==> (#[trigger] first[i]).callsite == second[i].callsite
                && first[i].slot == second[i].slot,
    ensures
        id_at(start, first) == id_at(start, second),
    decreases first.len(),
{
    if first.len() > 0 {
        let first_rest = first.drop_last();
        let second_rest = second.drop_last();
        assert forall|i: int| 0 <= i < first_rest.len() implies (#[trigger] first_rest[i]).callsite
            == second_rest[i].callsite && first_rest[i].slot == second_rest[i].slot by {
            assert(first_rest[i] == first[i]);
            assert(second_rest[i] == second[i]);
        }
        law_same_steps_same_id(start, first_rest, second_rest);
        assert(first.last() == first[first.len() - 1]);
        assert(second.last() == second[second.len() - 1]);
    }
}

/// The default slot is deterministic: in two parents with the same identity that have had
/// equally many children at a callsite, the next child there gets the same identity, and
/// the callsite then counts the same.
pub proof fn law_default_slot_deterministic(
    parent: u64,
    callsite: Callsite,
    first: Map<Callsite, nat>,
    second: Map<Callsite, nat>,
)
    requires
        first[callsite] == second[callsite],
    ensures
        counts_after_child(first, callsite)[callsite] == counts_after_child(
            second,
            callsite,
        )[callsite],
        child_id(parent, callsite@, default_slot(counts_after_child(first, callsite), callsite))
            == child_id(
            parent,
            callsite@,
            default_slot(counts_after_child(second, callsite), callsite),
        ),
{
}

/// Two callsites of one parent whose tokens differ, and differ within a window of four
/// bytes only, give their children in one slot different identities.
pub proof fn law_callsites_in_a_window_distinct(
    parent: u64,
    first: usize,
    second: usize,
    slot: Seq<u8>,
    index: nat,
)
    requires
        index + 4 <= 8,
        first != second,
        forall|other: nat|
            other < 8 && !(index <= other < index + 4) ==> #[trigger] byte_at(first as u64, other)
                == byte_at(second as u64, other),
    ensures
        child_id(parent, first, slot) != child_id(parent, second, slot),
{
    let a = child_bytes(parent, first, slot);
    let b = child_bytes(parent, second, slot);
    let at = 8 + index as int;
    assert forall|i: int| 0 <= i < a.len() && !(at <= i < at + 4) implies a[i] == b[i] by {
        if 8 <= i < 16 {
            assert(a[i] == byte_at(first as u64, (i - 8) as nat));
            assert(b[i] == byte_at(second as u64, (i - 8) as nat));
        }
    }
    if a == b {
        law_child_bytes_injective(parent, first, slot, parent, second, slot);
    }
    lemma_fold_differs_in_a_window(FNV_OFFSET_BASIS, a, b, at);
}

/// Two callsites of one parent whose tokens differ, and lie in one block of 2^32 tokens,
/// give their children in one slot different identities.
pub proof fn law_callsites_in_one_block_distinct(
    parent: u64,
    first: Callsite,
    second: Callsite,
    slot: Seq<u8>,
)
    requires
        first != second,
        first@ as int / 0x1_0000_0000 == second@ as int / 0x1_0000_0000,
    ensures
        child_id(parent, first@, slot) != child_id(parent, second@, slot),
{
    let a = first@ as u64;
    let b = second@ as u64;
    if first@ == second@ {
        Callsite::lemma_view_injective(first, second);
    }
    assert(((a >> 32u64) & 0xff) as u8 == ((b >> 32u64) & 0xff) as u8 && ((a >> 40u64) & 0xff) as u8
        == ((b >> 40u64) & 0xff) as u8 && ((a >> 48u64) & 0xff) as u8 == ((b >> 48u64) & 0xff) as u8
        && ((a >> 56u64) & 0xff) as u8 == ((b >> 56u64) & 0xff) as u8) by (bit_vector)
        requires
            a / 0x1_0000_0000 == b / 0x1_0000_0000,
    ;
    assert forall|other: nat| other < 8 && !(0 <= other < 4) implies #[trigger] byte_at(a, other)
        == byte_at(b, other) by {
        if other == 4 {
        } else if other == 5 {
        } else if other == 6 {
        } else {
            assert(other == 7);
        }
    }
    law_callsites_in_a_window_distinct(parent, first@, second@, slot, 0);
}

/// The bytes hashed for a child tell its parent, its callsite and its slot: two children
/// with different parents, callsites or slots are hashed from different bytes, so they get
/// one identity only where FNV-1a maps two different byte strings to one number.
pub proof fn law_child_bytes_injective(
    first_parent: u64,
    first_callsite: usize,
    first_slot: Seq<u8>,
    second_parent: u64,
    second_callsite: usize,
    second_slot: Seq<u8>,
)
    requires
        child_bytes(first_parent, first_callsite, first_slot) == child_bytes(
            second_parent,
            second_callsite,
            second_slot,
        ),
    ensures
        first_parent == second_parent,
        first_callsite == second_callsite,
        first_slot == second_slot,
{
    let a = child_bytes(first_parent, first_callsite, first_slot);
    let b = child_bytes(second_parent, second_callsite, second_slot);
    assert forall|index: nat| index < 8 implies #[trigger] byte_at(first_parent, index) == byte_at(
        second_parent,
        index,
    ) by {
        assert(a[index as int] == byte_at(first_parent, index));
        assert(b[index as int] == byte_at(second_parent, index));
    }
    lemma_bytes_determine(first_parent, second_parent);
    assert forall|index: nat| index < 8 implies #[trigger] byte_at(first_callsite as u64, index)
        == byte_at(second_callsite as u64, index) by {
        assert(a[8 + index as int] == byte_at(first_callsite as u64, index));
        assert(b[8 + index as int] == byte_at(second_callsite as u64, index));
    }
    lemma_bytes_determine(first_callsite as u64, second_callsite as u64);
    assert(first_slot =~= a.subrange(16, a.len() as int));
    assert(second_slot =~= b.subrange(16, b.len() as int));
}

/// Children of one parent at one callsite with different counts have different identities
/// in the default slot.
pub proof fn law_counts_distinct(parent: u64, callsite: usize, first: u32, second: u32)
    requires
        first != second,
    ensures
        child_id(parent, callsite, u32_le_bytes(first)) != child_id(
            parent,
            callsite,
            u32_le_bytes(second),
        ),
{
    let a = child_bytes(parent, callsite, u32_le_bytes(first));
    let b = child_bytes(parent, callsite, u32_le_bytes(second));
    if a == b {
        law_child_bytes_injective(
            parent,
            callsite,
            u32_le_bytes(first),
            parent,
            callsite,
            u32_le_bytes(second),
        );
        let x = first as u64;
        let y = second as u64;
        assert(u32_le_bytes(first)[0] == byte_at(x, 0));
        assert(u32_le_bytes(first)[1] == byte_at(x, 1));
        assert(u32_le_bytes(first)[2] == byte_at(x, 2));
        assert(u32_le_bytes(first)[3] == byte_at(x, 3));
        assert(u32_le_bytes(second)[0] == byte_at(y, 0));
        assert(u32_le_bytes(second)[1] == byte_at(y, 1));
        assert(u32_le_bytes(second)[2] == byte_at(y, 2));
        assert(u32_le_bytes(second)[3] == byte_at(y, 3));
        assert(x == y) by (bit_vector)
            requires
                x <= 0xffff_ffff,
                y <= 0xffff_ffff,
                ((x >> 0u64) & 0xff) as u8 == ((y >> 0u64) & 0xff) as u8,
                ((x >> 8u64) & 0xff) as u8 == ((y >> 8u64) & 0xff) as u8,
                ((x >> 16u64) & 0xff) as u8 == ((y >> 16u64) & 0xff) as u8,
                ((x >> 24u64) & 0xff) as u8 == ((y >> 24u64) & 0xff) as u8,
        ;
    }
    lemma_fold_differs_in_a_window(FNV_OFFSET_BASIS, a, b, 16);
}

/// Entering one callsite twice in a row in the default slot gives two different
/// identities, as long as the callsite's counter has room for both.
pub proof fn law_successive_children_distinct(
    parent: u64,
    callsite: Callsite,
    counts: Map<Callsite, nat>,
)
    requires
        counts[callsite] + 2 <= u32::MAX,
    ensures
        ({
            let after_first = counts_after_child(counts, callsite);
            let after_second = counts_after_child(after_first, callsite);
            child_id(parent, callsite@, default_slot(after_first, callsite)) != child_id(
                parent,
                callsite@,
                default_slot(after_second, callsite),
            )
        }),
{
    let first = (counts[callsite] + 1) as u32;
    let second = (counts[callsite] + 2) as u32;
    law_counts_distinct(parent, callsite@, first, second);
}

/// The identities of the children in a collection of slots depend on which slots there
/// are, and neither on the order in which they are entered nor on how often the callsite
/// was entered before.
pub proof fn law_same_slots_same_ids(
    parent: u64,
    callsite: usize,
    first: Seq<Seq<u8>>,
    second: Seq<Seq<u8>>,
)
    requires
        first.to_set() == second.to_set(),
    ensures
        ids_in_slots(parent, callsite, first) == ids_in_slots(parent, callsite, second),
{
    assert forall|id: u64| ids_in_slots(parent, callsite, first).contains(id) implies ids_in_slots(
        parent,
        callsite,
        second,
    ).contains(id) by {
        let i = choose|i: int|
            0 <= i < first.len() && id == child_id(parent, callsite, #[trigger] first[i]);
        assert(first.to_set().contains(first[i]));
        assert(second.contains(first[i]));
        let j = choose|j: int| 0 <= j < second.len() && second[j] == first[i];
        assert(id == child_id(parent, callsite, second[j]));
    }
    assert forall|id: u64| ids_in_slots(parent, callsite, second).contains(id) implies ids_in_slots(
        parent,
        callsite,
        first,
    ).contains(id) by {
        let i = choose|i: int|
            0 <= i < second.len() && id == child_id(parent, callsite, #[trigger] second[i]);
        assert(second.to_set().contains(second[i]));
        assert(first.contains(second[i]));
        let j = choose|j: int| 0 <= j < first.len() && first[j] == second[i];
        assert(id == child_id(parent, callsite, first[j]));
    }
    assert(ids_in_slots(parent, callsite, first) =~= ids_in_slots(parent, callsite, second));
}

/// After a store, a read of the same kind and scope with an argument that equals the
/// stored input finds the stored output, whatever was stored before, and leaves the entry
/// as the store made it.
pub proof fn law_read_after_store_hits<Scope, Arg: PartialEq<Input> + ?Sized, Input, Output>(
    shards: Shards<Scope, Input, Output>,
    query: Query,
    scope: Scope,
    input: Input,
    output: Output,
    arg: &Arg,
)
    requires
        arg.eq_spec(&input),
    ensures
        ({
            let stored = shards_after_store(shards, query, scope, input, output);
            &&& hits(shard(stored, query), scope, arg)
            &&& shard(stored, query)[scope].2 == output
            &&& shards_after_read(stored, query, scope, arg) == stored
        }),
{
    let stored = shards_after_store(shards, query, scope, input, output);
    let entries = shard(stored, query);
    assert(after_read(entries, scope, arg) =~= entries);
    assert(shards_after_read(stored, query, scope, arg) =~= stored);
}

/// After a store, a read of the same kind and scope with an argument that does not equal
/// the stored input finds nothing, and the entry stays.
pub proof fn law_read_with_other_input_misses<Scope, Arg: PartialEq<Input> + ?Sized, Input, Output>(
    shards: Shards<Scope, Input, Output>,
    query: Query,
    scope: Scope,
    input: Input,
    output: Output,
    arg: &Arg,
)
    requires
        !arg.eq_spec(&input),
    ensures
        ({
            let stored = shards_after_store(shards, query, scope, input, output);
            &&& !hits(shard(stored, query), scope, arg)
            &&& shards_after_read(stored, query, scope, arg) == stored
            &&& shard(stored, query)[scope] == (Liveness::Live, input, output)
        }),
{
    let stored = shards_after_store(shards, query, scope, input, output);
    assert(shards_after_read(stored, query, scope, arg) =~= stored);
}

/// One access to a cache between two collections.
pub enum Access<Scope, Arg, Input, Output> {
    /// A read of `scope` with `arg` among the queries of kind `query`.
    Read { query: Query, scope: Scope, arg: Arg },
    /// A store for `scope` among the queries of kind `query`.
    Store { query: Query, scope: Scope, input: Input, output: Output },
}

/// The shards after one access.
pub open spec fn shards_after<Scope, Arg: PartialEq<Input>, Input, Output>(
    shards: Shards<Scope, Input, Output>,
    access: Access<Scope, Arg, Input, Output>,
) -> Shards<Scope, Input, Output> {
    match access {
        Access::Read { query, scope, arg } => shards_after_read(shards, query, scope, &arg),
        Access::Store { query, scope, input, output } => shards_after_store(
            shards,
            query,
            scope,
            input,
            output,
        ),
    }
}

/// The shards after a run of accesses, first access first.
pub open spec fn shards_after_all<Scope, Arg: PartialEq<Input>, Input, Output>(
    shards: Shards<Scope, Input, Output>,
    accesses: Seq<Access<Scope, Arg, Input, Output>>,
) -> Shards<Scope, Input, Output>
    decreases accesses.len(),
{
    if accesses.len() == 0 {
        shards
    } else {
        shards_after(shards_after_all(shards, accesses.drop_last()), accesses.last())
    }
}

/// Whether an access touches the entry of `scope` among the queries of kind `query`: it is
/// a store for that entry, or a read of it that finds an output.
pub open spec fn touches<Scope, Arg: PartialEq<Input>, Input, Output>(
    shards: Shards<Scope, Input, Output>,
    access: Access<Scope, Arg, Input, Output>,
    query: Query,
    scope: Scope,
) -> bool {
    match access {
        Access::Read { query: read_query, scope: read_scope, arg } => read_query == query
            && read_scope == scope && hits(shard(shards, query), scope, &arg),
        Access::Store { query: stored_query, scope: stored_scope, input, output } => stored_query
            == query && stored_scope == scope,
    }
}

/// Whether some access of a run touches the entry, each access taken in the state that the
/// accesses before it left.
pub open spec fn touched_by<Scope, Arg: PartialEq<Input>, Input, Output>(
    shards: Shards<Scope, Input, Output>,
    accesses: Seq<Access<Scope, Arg, Input, Output>>,
    query: Query,
    scope: Scope,
) -> bool
    decreases accesses.len(),
{
    if accesses.len() == 0 {
        false
    } else {
        touched_by(shards, accesses.drop_last(), query, scope) || touches(
            shards_after_all(shards, accesses.drop_last()),
            accesses.last(),
            query,
            scope,
        )
    }
}

/// Whether the entry of `scope` among the queries of kind `query` is there and live.
pub open spec fn is_live<Scope, Input, Output>(
    shards: Shards<Scope, Input, Output>,
    query: Query,
    scope: Scope,
) -> bool {
    shard(shards, query).contains_key(scope) && shard(shards, query)[scope].0 == Liveness::Live
}

/// After a collection and a run of accesses, the live entries are the touched ones.
proof fn lemma_live_is_touched<Scope, Arg: PartialEq<Input>, Input, Output>(
    shards: Shards<Scope, Input, Output>,
    accesses: Seq<Access<Scope, Arg, Input, Output>>,
    query: Query,
    scope: Scope,
)
    ensures
        is_live(shards_after_all(shards_swept(shards), accesses), query, scope) <==> touched_by(
            shards_swept(shards),
            accesses,
            query,
            scope,
        ),
    decreases accesses.len(),
{
    if accesses.len() > 0 {
        lemma_live_is_touched(shards, accesses.drop_last(), query, scope);
    }
}

/// Of the entries that a cache holds after a collection and a run of accesses, the next
/// collection keeps exactly those that an access of the run touched.
pub proof fn law_collection_keeps_the_touched<Scope, Arg: PartialEq<Input>, Input, Output>(
    shards: Shards<Scope, Input, Output>,
    accesses: Seq<Access<Scope, Arg, Input, Output>>,
    query: Query,
    scope: Scope,
)
    ensures
        shard(
            shards_swept(shards_after_all(shards_swept(shards), accesses)),
            query,
        ).contains_key(scope) <==> touched_by(shards_swept(shards), accesses, query, scope),
{
    lemma_live_is_touched(shards, accesses, query, scope);
}

/// After a collection every entry is dead, until it is touched again.
pub proof fn law_collection_leaves_all_dead<Scope, Input, Output>(
    shards: Shards<Scope, Input, Output>,
    query: Query,
    scope: Scope,
)
    ensures
        !is_live(shards_swept(shards), query, scope),
{
}

/// An entry that is stored and then not touched survives one collection, dead, with its
/// input and output, and is gone after the next.
pub proof fn law_second_collection_evicts<Scope, Input, Output>(
    shards: Shards<Scope, Input, Output>,
    query: Query,
    scope: Scope,
    input: Input,
    output: Output,
)
    ensures
        ({
            let once = shards_swept(shards_after_store(shards, query, scope, input, output));
            let twice = shards_swept(once);
            &&& shard(once, query).contains_key(scope)
            &&& shard(once, query)[scope] == (Liveness::Dead, input, output)
            &&& !shard(twice, query).contains_key(scope)
            &&& twice.contains_key(query)
        }),
{
}

/// A store or a read among the queries of one kind changes nothing among the queries of
/// another kind, so every read there finds what it found before.
pub proof fn law_kinds_are_isolated<Scope, Arg: PartialEq<Input> + ?Sized, Input, Output>(
    shards: Shards<Scope, Input, Output>,
    query: Query,
    other: Query,
    scope: Scope,
    input: Input,
    output: Output,
    arg: &Arg,
)
    requires
        query != other,
    ensures
        shard(shards_after_store(shards, query, scope, input, output), other) == shard(
            shards,
            other,
        ),
        shard(shards_after_read(shards, query, scope, arg), other) == shard(shards, other),
{
}

} // verus!
