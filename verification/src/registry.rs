//! A table of entities keyed by request id.
use crate::common::RegistryId;
use std::collections::HashMap;
use vstd::prelude::*;

verus! {

broadcast use vstd::std_specs::hash::group_hash_axioms;

/// Entities keyed by the id of the request that brought them in.
pub struct Registry<T>(pub HashMap<RegistryId, T>);

impl<T> View for Registry<T> {
    type V = Map<RegistryId, T>;

    open spec fn view(&self) -> Map<RegistryId, T> {
        self.0@
    }
}

impl<T> Registry<T> {
    /// An empty registry.
    pub fn new() -> (registry: Self)
        ensures
            registry@ == Map::<RegistryId, T>::empty(),
    {
        Registry(HashMap::new())
    }

    /// Stores `entity` under `request_id`, replacing what was stored there.
    pub fn add_entity(&mut self, request_id: RegistryId, entity: T)
        ensures
            final(self)@ == old(self)@.insert(request_id, entity),
    {
        self.0.insert(request_id, entity);
    }

    /// Removes what is stored under `request_id`, if anything.
    pub fn remove_entity(&mut self, request_id: RegistryId)
        ensures
            final(self)@ == old(self)@.remove(request_id),
    {
        self.0.remove(&request_id);
    }
}

} // verus!
