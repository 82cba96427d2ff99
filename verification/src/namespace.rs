//! The stored results of one kind of query: at most one input and output for a scope, read
//! back when the argument equals the stored input, and swept by a mark-and-sweep collector.

use std::collections::HashMap;
use std::hash::Hash;
use vstd::prelude::*;
use vstd::std_specs::cmp::PartialEqSpec;
use vstd::std_specs::hash::obeys_key_model;

verus! {

broadcast use vstd::std_specs::hash::group_hash_axioms;

/// Describes the outcome for a cached value if a garbage collection were to occur when
/// observed.
#[derive(Clone, Copy, Debug, PartialEq, Eq, Structural)]
pub enum Liveness {
    /// The value would be retained in a GC right now.
    Live,
    /// The value would be dropped in a GC right now.
    Dead,
}

/// What a namespace holds: for each scope that has a stored result, its liveness, the
/// stored input and the stored output.
pub type Entries<Scope, Input, Output> = Map<Scope, (Liveness, Input, Output)>;

/// The entries after a successful read or a store of `scope`: that entry is live, and holds
/// `input` and `output`.
pub open spec fn touched<Scope, Input, Output>(
    entries: Entries<Scope, Input, Output>,
    scope: Scope,
    input: Input,
    output: Output,
) -> Entries<Scope, Input, Output> {
    entries.insert(scope, (Liveness::Live, input, output))
}

/// Whether a read of `scope` with `arg` finds a stored output: there is an entry for the
/// scope, and `arg` equals its input.
pub open spec fn hits<Scope, Arg: PartialEq<Input> + ?Sized, Input, Output>(
    entries: Entries<Scope, Input, Output>,
    scope: Scope,
    arg: &Arg,
) -> bool {
    entries.contains_key(scope) && arg.eq_spec(&entries[scope].1)
}

/// The entries after a read of `scope` with `arg`: a hit marks the entry live, and a miss
/// changes nothing.
pub open spec fn after_read<Scope, Arg: PartialEq<Input> + ?Sized, Input, Output>(
    entries: Entries<Scope, Input, Output>,
    scope: Scope,
    arg: &Arg,
) -> Entries<Scope, Input, Output> {
    if hits(entries, scope, arg) {
        touched(entries, scope, entries[scope].1, entries[scope].2)
    } else {
        entries
    }
}

/// The entries after a collection: the dead ones are gone, and the live ones are dead.
pub open spec fn swept<Scope, Input, Output>(entries: Entries<Scope, Input, Output>) -> Entries<
    Scope,
    Input,
    Output,
> {
    Map::new(
        |scope: Scope| entries.contains_key(scope) && entries[scope].0 == Liveness::Live,
        |scope: Scope| (Liveness::Dead, entries[scope].1, entries[scope].2),
    )
}

/// Marks one entry dead, and says whether it was live.
fn sweep<Input, Output>(entry: &mut (Liveness, Input, Output)) -> (keep: bool)
    ensures
        keep == (old(entry).0 == Liveness::Live),
        final(entry).0 == Liveness::Dead,
        final(entry).1 == old(entry).1,
        final(entry).2 == old(entry).2,
{
    let keep = entry.0 == Liveness::Live;
    entry.0 = Liveness::Dead;
    keep
}

/// `std::collections::HashMap::get_mut`: a mutable reference to the value stored for `key`,
/// or `None` where the map has none. Writing through the reference changes that value and
/// nothing else.
#[verifier::external_body]
fn map_get_mut<'a, Key: Eq + Hash, Value>(map: &'a mut HashMap<Key, Value>, key: &Key) -> (found:
    Option<&'a mut Value>)
    ensures
        obeys_key_model::<Key>() ==> match found {
            Some(value) => {
                &&& old(map)@.contains_key(*key)
                &&& *value == old(map)@[*key]
                &&& final(map)@ == old(map)@.insert(*key, *final(value))
            },
            None => !old(map)@.contains_key(*key) && final(map)@ == old(map)@,
        },
{
    map.get_mut(key)
}

/// `std::collections::HashMap::retain` with [`sweep`] as the predicate: `retain` hands every
/// value to the predicate once and removes the pairs for which it returns `false`, so the
/// entries that were live stay, now dead, and the others are gone.
#[verifier::external_body]
fn map_retain_swept<Scope, Input, Output>(map: &mut HashMap<Scope, (Liveness, Input, Output)>)
    ensures
        final(map)@ == swept(old(map)@),
{
    map.retain(|_, entry| sweep(entry))
}

/// The stored results of one kind of query, by scope.
#[derive(Debug)]
pub struct Namespace<Scope, Input, Output> {
    inner: HashMap<Scope, (Liveness, Input, Output)>,
}

impl<Scope, Input, Output> View for Namespace<Scope, Input, Output> {
    type V = Entries<Scope, Input, Output>;

    closed spec fn view(&self) -> Entries<Scope, Input, Output> {
        self.inner@
    }
}

impl<Scope: Eq + Hash, Input, Output> Namespace<Scope, Input, Output> {
    /// A namespace without entries.
    pub fn new() -> (namespace: Self)
        ensures
            namespace@ == Map::<Scope, (Liveness, Input, Output)>::empty(),
    {
        Namespace { inner: HashMap::new() }
    }

    /// Looks up the entry of `scope`. Where there is one and `arg` equals its input, the
    /// entry is marked live and its output is returned. Otherwise nothing changes: an entry
    /// with another input stays as it is, until the next `store` overwrites it.
    pub fn get_if_input_eq<Arg: PartialEq<Input> + ?Sized>(
        &mut self,
        scope: &Scope,
        arg: &Arg,
    ) -> (found: Option<&Output>)
        ensures
            obeys_key_model::<Scope>() && Arg::obeys_eq_spec() ==> {
                &&& final(self)@ == after_read(old(self)@, *scope, arg)
                &&& found == if hits(old(self)@, *scope, arg) {
                    Some(&old(self)@[*scope].2)
                } else {
                    None
                }
            },
    {
        match map_get_mut(&mut self.inner, scope) {
            Some(entry) => {
                if *arg == entry.1 {
                    entry.0 = Liveness::Live;
                    Some(&entry.2)
                } else {
                    None
                }
            },
            None => None,
        }
    }

    /// Stores `input` and `output` for `scope`, live, in place of what was stored for it.
    pub fn store(&mut self, scope: Scope, input: Input, output: Output)
        ensures
            obeys_key_model::<Scope>() ==> final(self)@ == touched(
                old(self)@,
                scope,
                input,
                output,
            ),
    {
        let _ = self.inner.insert(scope, (Liveness::Live, input, output));
    }

    /// Removes every dead entry, and marks every remaining entry dead.
    pub fn gc(&mut self)
        ensures
            final(self)@ == swept(old(self)@),
    {
        map_retain_swept(&mut self.inner);
    }

    /// The number of entries.
    pub fn len(&self) -> (len: usize)
        ensures
            obeys_key_model::<Scope>() ==> len == self@.len(),
    {
        self.inner.len()
    }
}

impl<Scope: Eq + Hash, Input, Output> Default for Namespace<Scope, Input, Output> {
    /// A namespace without entries.
    fn default() -> (namespace: Self)
        ensures
            namespace@ == Map::<Scope, (Liveness, Input, Output)>::empty(),
    {
        Namespace::new()
    }
}

} // verus!
