//! Scopes: the namespaces that keep groups of proposals apart.
use vstd::prelude::*;

verus! {

/// Anything that can name a group of proposals: comparable, hashable, cloneable
/// and shareable across tasks.
pub trait ConsensusScope: Clone + Eq + core::hash::Hash + Send + Sync + core::fmt::Debug + 'static {

}

impl<T> ConsensusScope for T where T: Clone + Eq + core::hash::Hash + Send + Sync + core::fmt::Debug + 'static {

}

/// The default scope: a UTF-8 string.
pub type ScopeID = String;

} // verus!
