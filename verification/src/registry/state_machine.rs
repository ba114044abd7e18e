//! A state machine that only notes what it is handed, so that this can be looked at.
use vstd::prelude::*;

verus! {

/// The part of a state that a round writes to, and the rest of it. The types of the
/// parts do not matter to the state machine.
#[derive(Clone, Copy, Debug, PartialEq, Eq)]
pub struct ReplicatedState<T, F, K, R> {
    pub network_topology: T,
    pub own_subnet_features: F,
    pub node_public_keys: K,
    pub rest: R,
}

/// A state machine that keeps the registry settings of its last round.
#[derive(Clone, Copy, Debug, PartialEq, Eq)]
pub struct FakeStateMachine<S> {
    pub settings: S,
}

impl<S> FakeStateMachine<S> {
    /// Puts what it is handed into the state, and keeps the registry settings.
    pub fn execute_round<T, F, K, R>(
        &mut self,
        state: ReplicatedState<T, F, K, R>,
        network_topology: T,
        subnet_features: F,
        registry_settings: S,
        node_public_keys: K,
    ) -> (r: ReplicatedState<T, F, K, R>)
        ensures
            r == (ReplicatedState {
                network_topology,
                own_subnet_features: subnet_features,
                node_public_keys,
                rest: state.rest,
            }),
            final(self).settings == registry_settings,
    {
        self.settings = registry_settings;
        ReplicatedState {
            network_topology,
            own_subnet_features: subnet_features,
            node_public_keys,
            rest: state.rest,
        }
    }
}

} // verus!
