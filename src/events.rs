//! Delivery of lifecycle events to subscribers.
use vstd::prelude::*;
use crate::scope::ConsensusScope;
use crate::types::ConsensusEvent;

verus! {

/// A broadcast of consensus events, for the application to provide. Delivery is
/// best effort: a subscriber that falls behind may miss events.
pub trait ConsensusEventBus<Scope: ConsensusScope>: Clone + Send + Sync + 'static {
    /// What a subscriber receives events through.
    type Receiver;

    /// A new subscription to the events of every scope.
    fn subscribe(&self) -> Self::Receiver;

    /// Publishes an event of `scope`; must not block.
    fn publish(&self, scope: Scope, event: ConsensusEvent);
}

} // verus!
