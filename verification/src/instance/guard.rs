//! Deleting an instance when the run is over.

use vstd::prelude::*;
use crate::backend::{Answer, BackendCall, InstanceBackend, Recorded};

verus! {

/// Deletes the instance when released, unless `keep` is set.
///
/// Created as soon as the backend has created the instance; every failure
/// after that, and the end of the run, releases it.
pub struct InstanceGuard {
    pub name: String,
    pub keep: bool,
}

impl InstanceGuard {
    pub fn new(name: String, keep: bool) -> (r: Self)
        ensures
            r.name == name,
            r.keep == keep,
    {
        Self { name, keep }
    }

    /// Whether releasing the guard deletes the instance.
    pub fn should_delete(&self) -> (r: bool)
        ensures
            r == !self.keep,
    {
        !self.keep
    }

    /// Release the guard: delete the instance through `backend` unless it
    /// is kept. `None` when kept, else what the deletion returned.
    pub fn release<B: InstanceBackend>(self, backend: &mut Recorded<B>) -> (r: Option<Result<(), B::Error>>)
        ensures
            r is None <==> self.keep,
            self.keep ==> final(backend).calls() == old(backend).calls(),
            !self.keep ==> (r matches Some(res) && final(backend).calls() == old(backend).calls().push(
                (BackendCall::Delete { name: self.name@ }, Answer::Done(res)),
            )),
    {
        if self.keep {
            None
        } else {
            Some(backend.delete(self.name.as_str()))
        }
    }
}

} // verus!
