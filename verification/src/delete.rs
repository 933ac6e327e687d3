//! Removing keys: the delete request and its response.

use vstd::prelude::*;

use crate::kv::{kv_matches_wire, KeyRange, KeyValue, WireKeyValue};
use crate::kv::kvs_from_wire;

verus! {

/// Removes every key a [`KeyRange`] addresses, optionally asking the store
/// to return the removed records.
pub struct DeleteRequest {
    pub key_range: KeyRange,
    pub prev_kv: bool,
}

impl DeleteRequest {
    /// A delete of everything `key_range` addresses, without returning the
    /// removed records.
    pub fn new(key_range: KeyRange) -> (r: Self)
        ensures
            r.key_range == key_range,
            !r.prev_kv,
    {
        Self { key_range, prev_kv: false }
    }

    /// The same delete, stating whether the store should return the removed
    /// records.
    pub fn prev_kv(self, prev_kv: bool) -> (r: Self)
        ensures
            r.key_range == self.key_range,
            r.prev_kv == prev_kv,
    {
        Self { key_range: self.key_range, prev_kv }
    }
}

impl From<KeyRange> for DeleteRequest {
    /// The canonical request a bare range converges to.
    fn from(key_range: KeyRange) -> (r: Self) {
        Self::new(key_range)
    }
}

impl vstd::std_specs::convert::FromSpecImpl<KeyRange> for DeleteRequest {
    open spec fn obeys_from_spec() -> bool {
        true
    }

    open spec fn from_spec(key_range: KeyRange) -> Self {
        DeleteRequest { key_range, prev_kv: false }
    }
}

/// Outcome of a delete: how many keys were removed, and their prior records
/// when those were asked for.
pub struct DeleteResponse {
    pub deleted: i64,
    pub prev_kvs: Vec<KeyValue>,
}

impl DeleteResponse {
    /// Wraps a decoded delete outcome, adopting every embedded wire record
    /// field for field and in order.
    pub fn from_wire(deleted: i64, prev_kvs: Vec<WireKeyValue>) -> (r: Self)
        ensures
            r.deleted == deleted,
            r.prev_kvs@.len() == prev_kvs@.len(),
            forall|i: int| 0 <= i < prev_kvs@.len() ==> kv_matches_wire(r.prev_kvs@[i], prev_kvs@[i]),
    {
        Self { deleted, prev_kvs: kvs_from_wire(prev_kvs) }
    }
}

} // verus!
