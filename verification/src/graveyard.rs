//! The graveyard: an append-only audit trail of displaced records.
//!
//! Whenever a cache entry or a remote-store row is about to be silently
//! overwritten, the displaced value is appended here first. The trail is
//! never read back by the core — it exists for human recovery — so the
//! account only ever appends, and the embedding application mirrors each
//! append onto the graveyard file.

use vstd::prelude::*;
use crate::models::Query;
use crate::store::Model;

verus! {

/// One displaced value: a cache entry or a remote-store row.
#[derive(Debug, PartialEq)]
pub enum GraveyardEntry {
    /// A cached result displaced from the query cache.
    Query(Query),
    /// A row displaced from the remote store.
    Record(Model),
}

impl Clone for GraveyardEntry {
    fn clone(&self) -> (r: Self)
        ensures
            r == *self,
    {
        match self {
            GraveyardEntry::Query(q) => GraveyardEntry::Query(q.clone()),
            GraveyardEntry::Record(m) => GraveyardEntry::Record(m.clone()),
        }
    }
}

} // verus!
