//! Query results of many kinds in one store: one [`Namespace`] for each kind of query.

use crate::namespace::after_read;
use crate::namespace::hits;
use crate::namespace::swept;
use crate::namespace::touched;
use crate::namespace::Entries;
use crate::namespace::Namespace;
use hash_hasher::HashHasher;
use std::borrow::ToOwned;
use std::any::TypeId;
use std::hash::Hash;
use std::hash::Hasher;
use vstd::prelude::*;
use vstd::std_specs::cmp::PartialEqSpec;
use vstd::std_specs::hash::obeys_key_model;

verus! {

/// The kind of a query: an identifier for the type of its scope, one for the type of its
/// input and one for the type of its output. Two kinds are the same exactly when the three
/// identifiers are.
#[derive(Clone, Copy, Debug, PartialEq, Eq, Hash, Structural)]
pub struct Query {
    /// The type of scope by which the query is namespaced.
    pub scope: u64,
    /// The type of input the query accepts.
    pub input: u64,
    /// The type of output the query returns.
    pub output: u64,
}

/// `std::any::TypeId::of::<T>()`, fed through its `Hash` impl to a default
/// `hash_hasher::HashHasher`, whose `finish` is returned. A `TypeId` differs from build to
/// build, so nothing is claimed of the number.
#[verifier::external_body]
fn type_identifier<T: 'static>() -> (identifier: u64) {
    let mut hasher = HashHasher::default();
    TypeId::of::<T>().hash(&mut hasher);
    hasher.finish()
}

/// `ToOwned::to_owned`. What comes back is decided by the argument's own impl, so nothing is
/// claimed of it.
#[verifier::external_body]
pub(crate) fn owned_input<Arg: ToOwned + ?Sized>(arg: &Arg) -> (input: Arg::Owned) {
    arg.to_owned()
}

impl Query {
    /// The kind whose identifiers are the given ones.
    pub fn new(scope: u64, input: u64, output: u64) -> (query: Query)
        ensures
            query == (Query { scope, input, output }),
    {
        Query { scope, input, output }
    }

    /// The kind of the queries from `Input` to `Output` that are namespaced by `Scope`, with
    /// the identifiers that this build gives the three types: the 64 bits that the `TypeId`
    /// of each feeds to a hasher.
    pub fn get<Scope: 'static, Input: 'static, Output: 'static>() -> Query {
        Query {
            scope: type_identifier::<Scope>(),
            input: type_identifier::<Input>(),
            output: type_identifier::<Output>(),
        }
    }
}

/// What a cache holds: the entries of each kind of query that it has a namespace for.
pub type Shards<Scope, Input, Output> = Map<Query, Entries<Scope, Input, Output>>;

/// The entries of the queries of kind `query`: none where the cache has no namespace for
/// the kind.
pub open spec fn shard<Scope, Input, Output>(
    shards: Shards<Scope, Input, Output>,
    query: Query,
) -> Entries<Scope, Input, Output> {
    if shards.contains_key(query) {
        shards[query]
    } else {
        Map::empty()
    }
}

/// The shards after a read of `scope` with `arg` among the queries of kind `query`: the
/// kind has a namespace, and in it a hit has marked the entry live.
pub open spec fn shards_after_read<Scope, Arg: PartialEq<Input> + ?Sized, Input, Output>(
    shards: Shards<Scope, Input, Output>,
    query: Query,
    scope: Scope,
    arg: &Arg,
) -> Shards<Scope, Input, Output> {
    shards.insert(query, after_read(shard(shards, query), scope, arg))
}

/// The shards after a store for `scope` among the queries of kind `query`.
pub open spec fn shards_after_store<Scope, Input, Output>(
    shards: Shards<Scope, Input, Output>,
    query: Query,
    scope: Scope,
    input: Input,
    output: Output,
) -> Shards<Scope, Input, Output> {
    shards.insert(query, touched(shard(shards, query), scope, input, output))
}

/// The shards after a collection: every namespace is swept, and none is removed.
pub open spec fn shards_swept<Scope, Input, Output>(
    shards: Shards<Scope, Input, Output>,
) -> Shards<Scope, Input, Output> {
    Map::new(|query: Query| shards.contains_key(query), |query: Query| swept(shards[query]))
}

/// The shards that a list of namespaces stands for: where a kind occurs twice, its first
/// namespace counts.
spec fn shards_of<Scope, Input, Output>(
    list: Seq<(Query, Namespace<Scope, Input, Output>)>,
) -> Shards<Scope, Input, Output>
    decreases list.len(),
{
    if list.len() == 0 {
        Map::empty()
    } else {
        shards_of(list.drop_first()).insert(list[0].0, list[0].1@)
    }
}

/// A kind that does not occur in the list has no shard.
proof fn lemma_shards_absent<Scope, Input, Output>(
    list: Seq<(Query, Namespace<Scope, Input, Output>)>,
    query: Query,
)
    requires
        forall|j: int| 0 <= j < list.len() ==> (#[trigger] list[j]).0 != query,
    ensures
        !shards_of(list).contains_key(query),
    decreases list.len(),
{
    if list.len() > 0 {
        let rest = list.drop_first();
        assert(list[0].0 != query);
        assert forall|j: int| 0 <= j < rest.len() implies (#[trigger] rest[j]).0 != query by {
            assert(rest[j] == list[j + 1]);
        }
        lemma_shards_absent(rest, query);
    }
}

/// The shard of a kind is the namespace of its first occurrence, and replacing that
/// namespace replaces the shard and nothing else.
proof fn lemma_shards_update<Scope, Input, Output>(
    list: Seq<(Query, Namespace<Scope, Input, Output>)>,
    index: int,
    query: Query,
    replacement: (Query, Namespace<Scope, Input, Output>),
)
    requires
        0 <= index < list.len(),
        list[index].0 == query,
        replacement.0 == query,
        forall|j: int| 0 <= j < index ==> (#[trigger] list[j]).0 != query,
    ensures
        shards_of(list).contains_key(query),
        shards_of(list)[query] == list[index].1@,
        shards_of(list.update(index, replacement)) == shards_of(list).insert(
            query,
            replacement.1@,
        ),
    decreases index,
{
    let updated = list.update(index, replacement);
    if index == 0 {
        assert(updated.drop_first() =~= list.drop_first());
        assert(shards_of(updated) =~= shards_of(list).insert(query, replacement.1@));
    } else {
        let rest = list.drop_first();
        assert(list[0].0 != query);
        assert(rest[index - 1] == list[index]);
        assert forall|j: int| 0 <= j < index - 1 implies (#[trigger] rest[j]).0 != query by {
            assert(rest[j] == list[j + 1]);
        }
        lemma_shards_update(rest, index - 1, query, replacement);
        assert(updated.drop_first() =~= rest.update(index - 1, replacement));
        assert(updated[0] == list[0]);
        assert(shards_of(updated) =~= shards_of(list).insert(query, replacement.1@));
    }
}

/// Appending a namespace for a kind that does not occur adds its shard and changes no
/// other.
proof fn lemma_shards_push<Scope, Input, Output>(
    list: Seq<(Query, Namespace<Scope, Input, Output>)>,
    addition: (Query, Namespace<Scope, Input, Output>),
)
    requires
        forall|j: int| 0 <= j < list.len() ==> (#[trigger] list[j]).0 != addition.0,
    ensures
        shards_of(list.push(addition)) == shards_of(list).insert(addition.0, addition.1@),
    decreases list.len(),
{
    let pushed = list.push(addition);
    if list.len() == 0 {
        assert(pushed.drop_first() =~= list);
        assert(shards_of(pushed) =~= shards_of(list).insert(addition.0, addition.1@));
    } else {
        let rest = list.drop_first();
        assert(list[0].0 != addition.0);
        assert forall|j: int| 0 <= j < rest.len() implies (#[trigger] rest[j]).0
            != addition.0 by {
            assert(rest[j] == list[j + 1]);
        }
        lemma_shards_push(rest, addition);
        assert(pushed.drop_first() =~= rest.push(addition));
        assert(pushed[0] == list[0]);
        assert(shards_of(pushed) =~= shards_of(list).insert(addition.0, addition.1@));
    }
}

/// Sweeping every namespace of a list sweeps every shard.
proof fn lemma_shards_swept<Scope, Input, Output>(
    before: Seq<(Query, Namespace<Scope, Input, Output>)>,
    after: Seq<(Query, Namespace<Scope, Input, Output>)>,
)
    requires
        before.len() == after.len(),
        forall|j: int|
            0 <= j < before.len() ==> (#[trigger] after[j]).0 == before[j].0 && after[j].1@
                == swept(before[j].1@),
    ensures
        shards_of(after) == shards_swept(shards_of(before)),
    decreases before.len(),
{
    if before.len() == 0 {
        assert(shards_of(after) =~= shards_swept(shards_of(before)));
    } else {
        let before_rest = before.drop_first();
        let after_rest = after.drop_first();
        assert forall|j: int| 0 <= j < before_rest.len() implies (#[trigger] after_rest[j]).0
            == before_rest[j].0 && after_rest[j].1@ == swept(before_rest[j].1@) by {
            assert(after_rest[j] == after[j + 1]);
            assert(before_rest[j] == before[j + 1]);
        }
        lemma_shards_swept(before_rest, after_rest);
        assert(after[0].0 == before[0].0 && after[0].1@ == swept(before[0].1@));
        assert(shards_of(after) =~= shards_swept(shards_of(before)));
    }
}

/// Holds the outputs of queries of many kinds. Each kind has a namespace of its own, made
/// when the kind is first read or stored, and kept from then on.
#[derive(Debug)]
pub struct Cache<Scope, Input, Output> {
    namespaces: Vec<(Query, Namespace<Scope, Input, Output>)>,
}

impl<Scope, Input, Output> View for Cache<Scope, Input, Output> {
    type V = Shards<Scope, Input, Output>;

    closed spec fn view(&self) -> Shards<Scope, Input, Output> {
        shards_of(self.namespaces@)
    }
}

impl<Scope: Eq + Hash, Input, Output> Cache<Scope, Input, Output> {
    /// A cache without namespaces.
    pub fn new() -> (cache: Self)
        ensures
            cache@ == Map::<Query, Entries<Scope, Input, Output>>::empty(),
    {
        Cache { namespaces: Vec::new() }
    }

    /// The place of the namespace of `query`, which is made first where there is none.
    fn get_namespace_index(&mut self, query: Query) -> (index: usize)
        ensures
            index < final(self).namespaces@.len(),
            final(self).namespaces@[index as int].0 == query,
            forall|j: int| 0 <= j < index ==> (#[trigger] final(self).namespaces@[j]).0 != query,
            final(self).namespaces@[index as int].1@ == shard(old(self)@, query),
            final(self)@ == old(self)@.insert(query, shard(old(self)@, query)),
    {
        let mut index: usize = 0;
        while index < self.namespaces.len()
            invariant
                index <= self.namespaces@.len(),
                self.namespaces@ == old(self).namespaces@,
                forall|j: int| 0 <= j < index ==> (#[trigger] self.namespaces@[j]).0 != query,
            decreases self.namespaces@.len() - index,
        {
            if self.namespaces[index].0 == query {
                proof {
                    lemma_shards_update(
                        self.namespaces@,
                        index as int,
                        query,
                        self.namespaces@[index as int],
                    );
                    assert(self.namespaces@.update(index as int, self.namespaces@[index as int])
                        =~= self.namespaces@);
                    assert(self@ =~= old(self)@.insert(query, shard(old(self)@, query)));
                }
                return index;
            }
            index = index + 1;
        }
        let namespace = Namespace::new();
        proof {
            lemma_shards_absent(self.namespaces@, query);
            lemma_shards_push(self.namespaces@, (query, namespace));
        }
        self.namespaces.push((query, namespace));
        index
    }

    /// Return a reference to a query's stored output if a result is stored and `arg` equals
    /// the previously-stored input. If a reference is returned, the stored input/output is
    /// marked live and will not be GC'd the next call.
    pub fn get_if_arg_eq_prev_input<Arg: PartialEq<Input> + ?Sized>(
        &mut self,
        query: Query,
        scope: &Scope,
        arg: &Arg,
    ) -> (found: Option<&Output>)
        ensures
            obeys_key_model::<Scope>() && Arg::obeys_eq_spec() ==> {
                &&& final(self)@ == shards_after_read(old(self)@, query, *scope, arg)
                &&& found == if hits(shard(old(self)@, query), *scope, arg) {
                    Some(&shard(old(self)@, query)[*scope].2)
                } else {
                    None
                }
            },
    {
        let index = self.get_namespace_index(query);
        let ghost list = self.namespaces@;
        proof {
            assert forall|replacement: (Query, Namespace<Scope, Input, Output>)|
                replacement.0 == query implies shards_of(
                #[trigger] list.update(index as int, replacement),
            ) == shards_of(list).insert(query, replacement.1@) by {
                lemma_shards_update(list, index as int, query, replacement);
            }
            assert(shards_of(list).insert(
                query,
                after_read(shard(old(self)@, query), *scope, arg),
            ) =~= shards_after_read(old(self)@, query, *scope, arg));
        }
        self.namespaces[index].1.get_if_input_eq(scope, arg)
    }

    /// Stores the input/output of a query which will not be GC'd at the next call.
    pub fn store(&mut self, query: Query, scope: Scope, input: Input, output: Output)
        ensures
            obeys_key_model::<Scope>() ==> final(self)@ == shards_after_store(
                old(self)@,
                query,
                scope,
                input,
                output,
            ),
    {
        let index = self.get_namespace_index(query);
        let ghost list = self.namespaces@;
        self.namespaces[index].1.store(scope, input, output);
        proof {
            lemma_shards_update(list, index as int, query, self.namespaces@[index as int]);
            assert(self.namespaces@ =~= list.update(index as int, self.namespaces@[index as int]));
            assert(shards_of(list).insert(query, self.namespaces@[index as int].1@)
                =~= old(self)@.insert(query, self.namespaces@[index as int].1@));
        }
    }

    /// The closure-based caching on a cache that the caller holds alone. Where a result is
    /// stored for `scope` and `arg` equals its input, the entry is marked live and `with`
    /// runs on the stored output. Otherwise `init` runs on an owned copy of `arg`, `with`
    /// runs on what `init` made, and input and output are stored for `scope`, live. Either
    /// way what `with` returned is returned.
    pub fn cache_with<Arg: PartialEq<Input> + ToOwned<Owned = Input> + ?Sized, Ret>(
        &mut self,
        query: Query,
        scope: &Scope,
        arg: &Arg,
        init: impl FnOnce(&Input) -> Output,
        with: impl FnOnce(&Output) -> Ret,
    ) -> (ret: Ret) where Scope: Clone
        requires
            forall|input: Input| init.requires((&input,)),
            forall|output: Output| with.requires((&output,)),
        ensures
            exists|output: Output| with.ensures((&output,), ret),
            obeys_key_model::<Scope>() && Arg::obeys_eq_spec() ==> if hits(
                shard(old(self)@, query),
                *scope,
                arg,
            ) {
                &&& with.ensures((&shard(old(self)@, query)[*scope].2,), ret)
                &&& final(self)@ == shards_after_read(old(self)@, query, *scope, arg)
            } else {
                exists|key: Scope, input: Input, output: Output|
                    {
                        &&& cloned(*scope, key)
                        &&& init.ensures((&input,), output)
                        &&& #[trigger] with.ensures((&output,), ret)
                        &&& final(self)@ == #[trigger] shards_after_store(
                            shards_after_read(old(self)@, query, *scope, arg),
                            query,
                            key,
                            input,
                            output,
                        )
                    }
            },
    {
        match self.get_if_arg_eq_prev_input(query, scope, arg) {
            Some(stored) => {
                return with(stored);
            },
            None => {},
        }
        let input = owned_input(arg);
        let output = init(&input);
        let ret = with(&output);
        let key = scope.clone();
        self.store(query, key, input, output);
        ret
    }

    /// Drops cached values that were not referenced since the last call and sets all
    /// remaining values to be dropped by default in the next call. A namespace stays, also
    /// where nothing is left in it.
    pub fn gc(&mut self)
        ensures
            final(self)@ == shards_swept(old(self)@),
    {
        let mut index: usize = 0;
        while index < self.namespaces.len()
            invariant
                index <= self.namespaces@.len(),
                self.namespaces@.len() == old(self).namespaces@.len(),
                forall|j: int|
                    0 <= j < self.namespaces@.len() ==> (#[trigger] self.namespaces@[j]).0 == old(
                        self,
                    ).namespaces@[j].0,
                forall|j: int|
                    0 <= j < index ==> (#[trigger] self.namespaces@[j]).1@ == swept(
                        old(self).namespaces@[j].1@,
                    ),
                forall|j: int|
                    index <= j < self.namespaces@.len() ==> (#[trigger] self.namespaces@[j]).1@
                        == old(self).namespaces@[j].1@,
            decreases self.namespaces@.len() - index,
        {
            self.namespaces[index].1.gc();
            index = index + 1;
        }
        proof {
            lemma_shards_swept(old(self).namespaces@, self.namespaces@);
        }
    }
}

impl<Scope: Eq + Hash, Input, Output> Default for Cache<Scope, Input, Output> {
    /// A cache without namespaces.
    fn default() -> (cache: Self)
        ensures
            cache@ == Map::<Query, Entries<Scope, Input, Output>>::empty(),
    {
        Cache::new()
    }
}

/// A cache for the use of one thread. Whether a cache may move to another thread is decided
/// by the types of what it stores, so this is [`Cache`] itself.
pub type LocalCache<Scope, Input, Output> = Cache<Scope, Input, Output>;

} // verus!
