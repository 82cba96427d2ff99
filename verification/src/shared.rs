//! Handles that share one cache: a closure-based read-or-compute on top of the cache's
//! mutable interface.

use crate::cache::owned_input;
use crate::cache::Cache;
use crate::cache::Query;
use crate::cells::cell_content;
use crate::cells::cell_new;
use crate::cells::cell_try_borrow_mut;
use parking_lot::Mutex;
use parking_lot::MutexGuard;
use std::borrow::ToOwned;
use std::cell::RefCell;
use std::hash::Hash;
use std::rc::Rc;
use std::sync::Arc;
use vstd::prelude::*;
use vstd::std_specs::convert::FromSpecImpl;

verus! {

/// `parking_lot::RawMutex`, of which nothing but its existence is known here.
#[verifier::external_type_specification]
#[verifier::external_body]
pub struct ExRawMutex(parking_lot::RawMutex);

/// `lock_api::Mutex`, which `parking_lot::Mutex` is an alias of.
#[verifier::external_type_specification]
#[verifier::external_body]
#[verifier::reject_recursive_types(R)]
#[verifier::reject_recursive_types(T)]
pub struct ExMutex<R, T: ?Sized>(parking_lot::lock_api::Mutex<R, T>);

/// A held `parking_lot::Mutex`: the `parking_lot::MutexGuard` that `lock` returned. The
/// guard's own type is bounded by a trait of `lock_api`, so it is kept behind this struct.
#[verifier::external_body]
#[verifier::reject_recursive_types(Scope)]
#[verifier::reject_recursive_types(Input)]
#[verifier::reject_recursive_types(Output)]
struct Locked<'a, Scope, Input, Output> {
    guard: MutexGuard<'a, Cache<Scope, Input, Output>>,
}

/// `parking_lot::Mutex::new`.
#[verifier::external_body]
fn mutex_new<Scope, Input, Output>(cache: Cache<Scope, Input, Output>) -> (mutex: Mutex<
    Cache<Scope, Input, Output>,
>) {
    Mutex::new(cache)
}

/// `parking_lot::Mutex::lock`: waits until the mutex is free, and holds it until the guard
/// is dropped.
#[verifier::external_body]
fn mutex_lock<'a, Scope, Input, Output>(mutex: &'a Mutex<Cache<Scope, Input, Output>>) -> (locked:
    Locked<'a, Scope, Input, Output>) {
    Locked { guard: mutex.lock() }
}

/// `DerefMut::deref_mut` of a `parking_lot::MutexGuard`: the cache that the held mutex
/// guards.
#[verifier::external_body]
fn mutex_cache<'a, 'b, Scope, Input, Output>(
    locked: &'a mut Locked<'b, Scope, Input, Output>,
) -> (cache: &'a mut Cache<Scope, Input, Output>) {
    &mut *locked.guard
}

/// Provides access to a shared cache which stores results from arbitrary queries for later
/// retrieval. Clones of a handle share one cache, also across threads.
#[derive(Debug)]
#[verifier::reject_recursive_types(Scope)]
#[verifier::reject_recursive_types(Input)]
#[verifier::reject_recursive_types(Output)]
pub struct SharedCache<Scope, Input, Output> {
    inner: Arc<Mutex<Cache<Scope, Input, Output>>>,
}

impl<Scope: Eq + Hash + Clone, Input, Output> SharedCache<Scope, Input, Output> {
    /// A handle to a new cache without entries.
    pub fn new() -> Self {
        SharedCache { inner: Arc::new(mutex_new(Cache::new())) }
    }

    /// Provides a closure-based caching API on top of the underlying mutable API. Steps:
    ///
    /// 1. with the mutex held, the stored output is looked up; on a hit it is marked live,
    ///    `with` runs on it while the mutex is still held, and its result is returned;
    /// 2. on a miss the mutex is released, `init` makes an output from an owned copy of
    ///    `arg`, and `with` runs on that output;
    /// 3. with the mutex held again, input and output are stored, live, and the result of
    ///    `with` is returned.
    ///
    /// The mutex is not held while `init` runs, so `init` may use this cache itself.
    pub fn cache_with<Arg: PartialEq<Input> + ToOwned<Owned = Input> + ?Sized, Ret>(
        &self,
        query: Query,
        scope: &Scope,
        arg: &Arg,
        init: impl FnOnce(&Input) -> Output,
        with: impl FnOnce(&Output) -> Ret,
    ) -> (ret: Ret)
        requires
            forall|input: Input| init.requires((&input,)),
            forall|output: Output| with.requires((&output,)),
        ensures
            exists|output: Output| with.ensures((&output,), ret),
    {
        {
            let mut guard = mutex_lock(&self.inner);
            let cache = mutex_cache(&mut guard);
            match cache.get_if_arg_eq_prev_input(query, scope, arg) {
                Some(stored) => {
                    return with(stored);
                },
                None => {},
            }
        }
        let input = owned_input(arg);
        let output = init(&input);
        let ret = with(&output);
        let mut guard = mutex_lock(&self.inner);
        mutex_cache(&mut guard).store(query, scope.clone(), input, output);
        ret
    }

    /// Sweeps the shared cache, with the mutex held: see [`Cache::gc`].
    pub fn gc(&self) {
        let mut guard = mutex_lock(&self.inner);
        mutex_cache(&mut guard).gc();
    }
}

/// Provides access to a shared cache which stores results from arbitrary queries for later
/// retrieval. Clones of a handle share one cache, within one thread.
#[derive(Debug)]
#[verifier::reject_recursive_types(Scope)]
#[verifier::reject_recursive_types(Input)]
#[verifier::reject_recursive_types(Output)]
pub struct SharedLocalCache<Scope, Input, Output> {
    inner: Rc<RefCell<Cache<Scope, Input, Output>>>,
}

impl<Scope: Eq + Hash + Clone, Input, Output> SharedLocalCache<Scope, Input, Output> {
    /// A handle to a new cache without entries.
    pub fn new() -> Self {
        SharedLocalCache { inner: Rc::new(cell_new(Cache::new())) }
    }

    /// Provides a closure-based caching API on top of the underlying mutable API. Steps:
    ///
    /// 1. with the cell borrowed, the stored output is looked up; on a hit it is marked
    ///    live, `with` runs on it while the borrow is still held, and its result is
    ///    returned;
    /// 2. on a miss the borrow is given up, `init` makes an output from an owned copy of
    ///    `arg`, and `with` runs on that output;
    /// 3. with the cell borrowed again, input and output are stored, live, and the result of
    ///    `with` is returned.
    ///
    /// The cell is not borrowed while `init` runs, so `init` may use this cache itself. A
    /// `with` that uses this cache while it runs on a hit finds the cell borrowed: its read
    /// is then taken for a miss, and what it would store is dropped.
    pub fn cache_with<Arg: PartialEq<Input> + ToOwned<Owned = Input> + ?Sized, Ret>(
        &self,
        query: Query,
        scope: &Scope,
        arg: &Arg,
        init: impl FnOnce(&Input) -> Output,
        with: impl FnOnce(&Output) -> Ret,
    ) -> (ret: Ret)
        requires
            forall|input: Input| init.requires((&input,)),
            forall|output: Output| with.requires((&output,)),
        ensures
            exists|output: Output| with.ensures((&output,), ret),
    {
        match cell_try_borrow_mut(&self.inner) {
            Some(mut borrow) => {
                let cache = cell_content(&mut borrow);
                match cache.get_if_arg_eq_prev_input(query, scope, arg) {
                    Some(stored) => {
                        return with(stored);
                    },
                    None => {},
                }
            },
            None => {},
        }
        let input = owned_input(arg);
        let output = init(&input);
        let ret = with(&output);
        match cell_try_borrow_mut(&self.inner) {
            Some(mut borrow) => {
                cell_content(&mut borrow).store(query, scope.clone(), input, output);
            },
            None => {},
        }
        ret
    }

    /// Sweeps the shared cache, with the cell borrowed: see [`Cache::gc`]. Called from a
    /// `with` that runs on a hit of this cache, it finds the cell borrowed and does nothing.
    pub fn gc(&self) {
        match cell_try_borrow_mut(&self.inner) {
            Some(mut borrow) => {
                cell_content(&mut borrow).gc();
            },
            None => {},
        }
    }
}

impl<Scope: Eq + Hash + Clone, Input, Output> Default for SharedCache<Scope, Input, Output> {
    /// A handle to a new cache without entries.
    fn default() -> Self {
        SharedCache::new()
    }
}

impl<Scope: Eq + Hash + Clone, Input, Output> Default for SharedLocalCache<Scope, Input, Output> {
    /// A handle to a new cache without entries.
    fn default() -> Self {
        SharedLocalCache::new()
    }
}

impl<Scope, Input, Output> From<Cache<Scope, Input, Output>> for SharedCache<Scope, Input, Output> {
    /// A handle to `inner`.
    fn from(inner: Cache<Scope, Input, Output>) -> Self {
        SharedCache { inner: Arc::new(mutex_new(inner)) }
    }
}

impl<Scope, Input, Output> FromSpecImpl<Cache<Scope, Input, Output>> for SharedCache<Scope, Input, Output> {
    open spec fn obeys_from_spec() -> bool {
        false
    }

    open spec fn from_spec(inner: Cache<Scope, Input, Output>) -> Self {
        arbitrary()
    }
}

impl<Scope, Input, Output> From<Cache<Scope, Input, Output>> for SharedLocalCache<Scope, Input, Output> {
    /// A handle to `inner`.
    fn from(inner: Cache<Scope, Input, Output>) -> Self {
        SharedLocalCache { inner: Rc::new(cell_new(inner)) }
    }
}

impl<Scope, Input, Output> FromSpecImpl<Cache<Scope, Input, Output>> for SharedLocalCache<Scope, Input, Output> {
    open spec fn obeys_from_spec() -> bool {
        false
    }

    open spec fn from_spec(inner: Cache<Scope, Input, Output>) -> Self {
        arbitrary()
    }
}

impl<Scope, Input, Output> Clone for SharedCache<Scope, Input, Output> {
    fn clone(&self) -> Self {
        SharedCache { inner: self.inner.clone() }
    }
}

impl<Scope, Input, Output> Clone for SharedLocalCache<Scope, Input, Output> {
    fn clone(&self) -> Self {
        SharedLocalCache { inner: self.inner.clone() }
    }
}

} // verus!
