//! The watch-side view of change detection: the same rule as the file
//! service, kept for the master's watcher loop, which hands it the path a
//! filesystem event named.

use vstd::prelude::*;

use crate::hash_store::observed_digest;
use crate::hash_store::spec_changed;
use crate::hash_store::HashStorage;

verus! {

/// Change detection as the master's watcher loop consumes it.
pub struct WatchServicePub {}

impl WatchServicePub {
    pub fn new() -> (r: Self) {
        WatchServicePub {  }
    }

    /// Compares a changed file against the Hash Store, recording the newly
    /// observed digest when it differs; the caller persists the store after
    /// a reported change.
    pub fn comparison_file(
        &self,
        storage: &mut HashStorage,
        target_file_path: &str,
        content: Option<&Vec<u8>>,
    ) -> (changed: bool)
        requires
            old(storage).wf(),
        ensures
            final(storage).wf(),
            changed == spec_changed(
                old(storage).as_map(),
                target_file_path@,
                observed_digest(content),
            ),
            !old(storage).as_map().contains_key(target_file_path@) ==> changed,
            changed ==> final(storage).as_map() == old(storage).as_map().insert(
                target_file_path@,
                observed_digest(content),
            ),
            changed && content is Some ==> final(storage).as_map()[target_file_path@].len() == 32,
            !changed ==> *final(storage) == *old(storage),
            final(storage).dir_path@ == old(storage).dir_path@,
    {
        storage.detect_change(target_file_path, content)
    }
}

} // verus!
