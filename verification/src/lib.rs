//! Stable identities for the activations of a repeatedly executed call graph, and a cache of
//! query results keyed by them.
//!
//! Every scope that [`call`] enters has an [`Id`]: the FNV-1a hash of the identity of the
//! scope it was entered from, of the [`Callsite`] and of a slot, which by default is the
//! number of children that the parent has had at that callsite. The same traversal gives the
//! same identities each time it runs, so what was computed for a scope in one revision can be
//! found again in the next. A [`Cache`] keeps such results: an output is read back while
//! the argument equals the stored input, and [`Cache::gc`], called between revisions, drops
//! what no revision has touched since the last call.

pub mod ambient;
pub mod cache;
pub mod cells;
pub mod hashing;
pub mod id;
pub mod laws;
pub mod namespace;
pub mod point;
pub mod shared;

pub use crate::ambient::call;
pub use crate::ambient::call_at;
pub use crate::ambient::call_in_slot;
pub use crate::ambient::call_inner;
pub use crate::cache::Cache;
pub use crate::cache::LocalCache;
pub use crate::cache::Query;
pub use crate::id::Callsite;
pub use crate::id::Id;
pub use crate::namespace::Liveness;
pub use crate::namespace::Namespace;
pub use crate::point::Point;
pub use crate::shared::SharedCache;
pub use crate::shared::SharedLocalCache;
